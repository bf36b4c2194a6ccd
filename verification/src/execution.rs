//! What all executions have in common.

use vstd::prelude::*;

use crate::game::{Game, GameView};

verus! {

/// The hash of a game at a tick.
#[derive(Clone, Debug)]
pub struct HashUpdate {
    pub tick: u32,
    pub hash: i64,
}

/// The end of a game.
#[derive(Clone, Debug)]
pub struct WinUpdate {
    pub tick: u32,
    pub winner: String,
}

/// Something that goes on in a game, from the tick on which it begins.
pub trait Execution: Sized {
    /// Whether the execution fits the game that it is to act on.
    spec fn ready(&self, game: GameView) -> bool;

    /// Whether the execution has what its next tick needs of the engine.
    open spec fn equipped(&self, game: GameView) -> bool {
        true
    }

    /// The game after the execution began.
    spec fn begun(&self, game: GameView, tick: u32) -> GameView;

    /// The game after the execution had a tick.
    spec fn ticked(&self, game: GameView, tick: u32) -> GameView;

    /// Whether `next` is what becomes of the execution as it begins.
    spec fn begun_as(&self, game: GameView, tick: u32, next: Self) -> bool;

    /// Whether `next` is what becomes of the execution with a tick.
    spec fn ticked_as(&self, game: GameView, tick: u32, next: Self) -> bool;

    /// Whether the execution still goes on.
    spec fn going(&self) -> bool;

    /// Begins the execution.
    fn init(&mut self, game: &mut Game, tick: u32)
        requires
            old(game).wf(),
            old(self).ready(old(game)@),
        ensures
            final(game).wf(),
            final(game)@ == old(self).begun(old(game)@, tick),
            old(self).begun_as(old(game)@, tick, *final(self)),
            final(self).ready(final(game)@),
    ;

    /// Gives the execution a tick.
    fn tick(&mut self, game: &mut Game, tick: u32)
        requires
            old(game).wf(),
            old(self).ready(old(game)@),
            old(self).equipped(old(game)@),
        ensures
            final(game).wf(),
            final(game)@ == old(self).ticked(old(game)@, tick),
            old(self).ticked_as(old(game)@, tick, *final(self)),
            final(self).ready(final(game)@),
            !old(self).going() ==> !final(self).going(),
    ;

    fn is_active(&self) -> (active: bool)
        ensures
            active == self.going(),
    ;

    /// Whether the execution also runs while players spawn.
    fn active_during_spawn(&self) -> (active: bool)
        default_ensures
            !active,
    {
        false
    }

    /// Whether the execution ends the spawn phase.
    fn is_spawn_timer(&self) -> (timer: bool)
        default_ensures
            !timer,
    {
        false
    }
}

} // verus!
