//! Many nations that are given their ticks together.

use vstd::prelude::*;

use crate::config::Difficulty;
use crate::execution::Execution;
use crate::game::{Game, GameView};
use crate::nation::{NationExecution, NationRuntime};

verus! {

/// The nations of a game.
pub struct NationBatch {
    pub nations: Vec<NationExecution>,
}

/// The game after each nation had its tick, in order.
pub open spec fn ruled_by(game: GameView, nations: Seq<NationExecution>, tick: u32) -> GameView
    decreases nations.len(),
{
    if nations.len() == 0 {
        game
    } else {
        nations.last().ruled(ruled_by(game, nations.drop_last(), tick), tick).0
    }
}

impl NationBatch {
    pub open spec fn wf(&self) -> bool {
        forall|i: int| 0 <= i < self.nations@.len() ==> (#[trigger] self.nations@[i]).wf()
    }

    pub fn new() -> (batch: Self)
        ensures
            batch.wf(),
            batch.nations@.len() == 0,
    {
        NationBatch { nations: Vec::new() }
    }

    /// Adds a nation.
    pub fn register(&mut self, game_id: String, nation: NationRuntime)
        requires
            old(self).wf(),
            nation.wf(),
        ensures
            final(self).wf(),
            final(self).nations@.len() == old(self).nations@.len() + 1,
            final(self).nations@.drop_last() == old(self).nations@,
            final(self).nations@.last().is_new(game_id, nation),
    {
        let execution = NationExecution::new(game_id, nation);
        let ghost before = self.nations@;
        self.nations.push(execution);
        assert(self.nations@.drop_last() =~= before);
        assert forall|i: int| 0 <= i < self.nations@.len() implies (
        #[trigger] self.nations@[i]).wf() by {
            if i < before.len() {
                assert(before[i].wf());
            }
        }
    }

    /// Draws when each nation has its turns.
    pub fn init_all(&mut self, difficulty: Difficulty)
        requires
            old(self).wf(),
        ensures
            final(self).wf(),
            final(self).nations@.len() == old(self).nations@.len(),
            forall|i: int|
                0 <= i < final(self).nations@.len() ==> (
                #[trigger] final(self).nations@[i]).has_drawn(old(self).nations@[i], difficulty)
                    && final(self).nations@[i].differs_in_turns(old(self).nations@[i]),
    {
        let n: usize = self.nations.len();
        for k in 0..n
            invariant
                n == self.nations@.len(),
                self.nations@.len() == old(self).nations@.len(),
                self.wf(),
                forall|i: int| k <= i < n ==> self.nations@[i] == old(self).nations@[i],
                forall|i: int|
                    0 <= i < k ==> (#[trigger] self.nations@[i]).has_drawn(
                        old(self).nations@[i],
                        difficulty,
                    ) && self.nations@[i].differs_in_turns(old(self).nations@[i]),
        {
            let ghost before = self.nations@;
            assert(before[k as int].wf());
            let nation = &mut self.nations[k];
            nation.draw_turns(difficulty);
            assert forall|i: int| 0 <= i < self.nations@.len() implies (
            #[trigger] self.nations@[i]).wf() by {
                assert(before[i].wf());
            }
        }
    }

    /// Gives each nation its tick, their ships aside.
    pub fn tick(&mut self, game: &mut Game, tick: u32)
        requires
            old(game).wf(),
            old(self).wf(),
        ensures
            final(game).wf(),
            final(self).wf(),
            final(game)@ == ruled_by(old(game)@, old(self).nations@, tick),
            final(self).nations@.len() == old(self).nations@.len(),
            forall|i: int|
                0 <= i < final(self).nations@.len() ==> (
                #[trigger] final(self).nations@[i]).same_nation(&old(self).nations@[i])
                    && final(self).nations@[i].rule() == old(self).nations@[i].ruled(
                    ruled_by(old(game)@, old(self).nations@.take(i), tick),
                    tick,
                ).1,
    {
        let n: usize = self.nations.len();
        assert(old(self).nations@.take(0) =~= Seq::empty());
        for k in 0..n
            invariant
                n == self.nations@.len(),
                self.nations@.len() == old(self).nations@.len(),
                game.wf(),
                self.wf(),
                game@ == ruled_by(old(game)@, old(self).nations@.take(k as int), tick),
                forall|i: int| k <= i < n ==> self.nations@[i] == old(self).nations@[i],
                forall|i: int|
                    0 <= i < k ==> (#[trigger] self.nations@[i]).same_nation(
                        &old(self).nations@[i],
                    ) && self.nations@[i].rule() == old(self).nations@[i].ruled(
                        ruled_by(old(game)@, old(self).nations@.take(i), tick),
                        tick,
                    ).1,
        {
            let ghost before = self.nations@;
            assert(before[k as int].wf());
            assert(old(self).nations@.take(k + 1).drop_last() =~= old(self).nations@.take(
                k as int,
            ));
            let nation = &mut self.nations[k];
            nation.rule_tick(game, tick);
            assert forall|i: int| 0 <= i < self.nations@.len() implies (
            #[trigger] self.nations@[i]).wf() by {
                assert(before[i].wf());
            }
        }
        proof {
            crate::lists::lemma_take_all(old(self).nations@);
        }
    }
}

/// A nation does the same in a batch as on its own.
pub proof fn law_batches_rule_like_their_nations(
    game: GameView,
    nations: Seq<NationExecution>,
    nation: NationExecution,
    tick: u32,
)
    ensures
        ruled_by(game, Seq::empty(), tick) == game,
        ruled_by(game, nations.push(nation), tick) == nation.ticked(
            ruled_by(game, nations, tick),
            tick,
        ),
        forall|next: NationExecution|
            #[trigger] nation.ticked_as(ruled_by(game, nations, tick), tick, next) == (
            next.same_nation(&nation) && next.rule() == nation.ruled(
                ruled_by(game, nations, tick),
                tick,
            ).1),
{
    assert(nations.push(nation).drop_last() =~= nations);
}

impl Default for NationBatch {
    fn default() -> (batch: Self)
        ensures
            batch.wf(),
            batch.nations@.len() == 0,
    {
        NationBatch::new()
    }
}

} // verus!
