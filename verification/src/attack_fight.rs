//! The fight of an attack over land, step by step.
//!
//! A tick on which an attack fights begins with how wide its front is, which decides how far
//! the attack gets. Then, as long as it gets further, [`AttackExecution::next_tile`] names
//! the tile that is taken next and [`AttackExecution::conquer_tile`] takes it at the price
//! that the combat formula asks for.

use vstd::prelude::*;

use crate::attack::{AttackExecution, Front};
use crate::config::TROOP_SCALE;
use crate::execution::Execution;
use crate::game::{Game, GameView};
use crate::map::MapView;
use crate::ordered_tiles::TileRef;

verus! {

/// The next step of an attack's fight.
#[derive(Clone, Copy, Debug, PartialEq, Eq, Structural)]
pub enum FightStep {
    /// The fight is over, and with it the attack.
    Over,
    /// This tile is to be taken.
    Take(TileRef),
}

/// Front widths are drawn up to this much wider than the front is.
pub const WIDTH_SPREAD: i32 = 5;

impl AttackExecution {
    /// The troops that an attack has left after a loss.
    pub open spec fn left_after(&self, loss: int) -> int {
        if self.troops > loss {
            self.troops - loss
        } else {
            0
        }
    }

    /// The game after the attack took a tile.
    pub open spec fn taking_tile(
        &self,
        game: GameView,
        t: TileRef,
        attacker_loss: int,
        defender_loss: int,
    ) -> GameView {
        let manned = game.manning(
            self.owner_small_id,
            self.attack_id@,
            self.left_after(attacker_loss),
        );
        if self.target_is_player {
            manned.losing(self.target_small_id, defender_loss).transferring(
                t,
                self.owner_small_id,
                true,
            ).overrunning(self.owner_small_id, self.target_small_id)
        } else {
            manned.transferring(t, self.owner_small_id, true)
        }
    }

    /// How wide the attack's front is taken to be on a tick.
    pub fn front_width(&mut self) -> (width: u128)
        requires
            old(self).wf(),
        ensures
            width == old(self).border_tiles@.len() + crate::prng::int_drawn(
                old(self).random.state,
                0,
                WIDTH_SPREAD as int,
            ),
            final(self).random.state == crate::prng::next_state(old(self).random.state),
            *final(self) == (AttackExecution { random: final(self).random, ..*old(self) }),
    {
        let spread: i32 = self.random.next_int(0, WIDTH_SPREAD);
        let tiles: usize = self.border_tiles.len();
        tiles as u128 + spread as u128
    }

    /// Drops tiles from the front until one can be taken, and looks further from there.
    fn pick(&mut self, game: &Game, tick: u32) -> (tile: Option<TileRef>)
        requires
            game.wf(),
            old(self).ready(game@),
        ensures
            final(self).ready(game@),
            final(self).same_but_front(old(self)),
            (final(self).front(), tile) == old(self).front().choosing(
                game@.map,
                old(self).owner_small_id,
                old(self).target_small_id,
                tick,
            ),
            tile is Some ==> game@.map.valid(tile->0) && game@.map.takable(
                tile->0,
                old(self).owner_small_id,
                old(self).target_small_id,
            ),
    {
        let ghost goal = self.front().choosing(
            game@.map,
            self.owner_small_id,
            self.target_small_id,
            tick,
        );
        while !self.to_conquer.is_empty()
            invariant
                game.wf(),
                self.ready(game@),
                self.same_but_front(old(self)),
                goal == old(self).front().choosing(
                    game@.map,
                    old(self).owner_small_id,
                    old(self).target_small_id,
                    tick,
                ),
                self.front().choosing(
                    game@.map,
                    self.owner_small_id,
                    self.target_small_id,
                    tick,
                ) == goal,
            decreases self.to_conquer@.len(),
        {
            let ghost before = self.front();
            let owner: u16 = self.owner_small_id;
            let target: u16 = self.target_small_id;
            let tile: TileRef = match self.to_conquer.dequeue() {
                Some(tile) => tile,
                None => 0,
            };
            assert(game@.map.valid(before.heap[0].1));
            proof {
                crate::attack::lemma_dequeued_on_map(game@.map, before.heap, self.to_conquer@);
            }
            self.border_tiles.remove(tile);
            assert(self.front() == before.popped());
            let near = game.map.neighbors4(tile);
            let own = |x: TileRef| -> (mine: bool)
                requires
                    game@.map.valid(x),
                ensures
                    mine == crate::attack::held_by_player(game@.map, owner)(x),
                { game.map.owner_id(x) == owner };
            let on_border: bool = crate::lists::any_by(
                &near,
                own,
                Ghost(crate::attack::held_by_player(game@.map, owner)),
            );
            if game.map.owner_id(tile) == target && on_border && game.map.is_land(tile)
                && !game.map.is_impassable(tile) {
                self.add_neighbors(game, tile, tick);
                return Some(tile);
            }
        }
        None
    }

    /// The next step of the fight. An attack without troops is over; one without a tile to
    /// take goes home.
    pub fn next_tile(&mut self, game: &mut Game, tick: u32) -> (step: FightStep)
        requires
            old(game).wf(),
            old(self).ready(old(game)@),
            old(self).fighting,
        ensures
            final(game).wf(),
            final(self).ready(final(game)@),
            old(self).troops < TROOP_SCALE ==> {
                &&& step == FightStep::Over
                &&& final(game)@ == old(self).struck_off(old(game)@)
                &&& *final(self) == (AttackExecution {
                    attack_live: false,
                    active: false,
                    fighting: false,
                    ..*old(self)
                })
            },
            old(self).troops >= TROOP_SCALE ==> {
                let (front, tile) = old(self).front().choosing(
                    old(game)@.map,
                    old(self).owner_small_id,
                    old(self).target_small_id,
                    tick,
                );
                match tile {
                    Some(t) => {
                        &&& step == FightStep::Take(t)
                        &&& old(game)@.map.valid(t)
                        &&& old(game)@.map.takable(
                            t,
                            old(self).owner_small_id,
                            old(self).target_small_id,
                        )
                        &&& final(game)@ == old(game)@
                        &&& final(self).front() == front
                        &&& final(self).same_but_front(old(self))
                    },
                    None => {
                        &&& step == FightStep::Over
                        &&& final(game)@ == old(self).returned(
                            old(game)@,
                            old(self).troops as int,
                            0,
                            false,
                        )
                        &&& final(self).front() == front.refreshed(
                            old(game)@,
                            old(self).owner_small_id,
                            old(self).target_small_id,
                        )
                        &&& !final(self).active
                        &&& !final(self).attack_live
                        &&& !final(self).fighting
                        &&& final(self).troops == 0
                    },
                }
            },
    {
        if self.troops < TROOP_SCALE {
            self.kill_attack(game);
            self.active = false;
            self.fighting = false;
            return FightStep::Over;
        }
        match self.pick(game, tick) {
            Some(tile) => FightStep::Take(tile),
            None => {
                self.refresh_to_conquer(game);
                let troops: i64 = self.troops;
                self.retreat(game, troops, 0, false);
                self.fighting = false;
                FightStep::Over
            },
        }
    }

    /// Takes a tile: the attack and its target lose troops, the tile falls to the attacker,
    /// and a target with little land left is overrun.
    pub fn conquer_tile(
        &mut self,
        game: &mut Game,
        tile: TileRef,
        attacker_loss: i64,
        defender_loss: i64,
    )
        requires
            old(game).wf(),
            old(self).ready(old(game)@),
            old(self).fighting,
            old(game)@.map.valid(tile),
            0 <= attacker_loss,
            0 <= defender_loss,
        ensures
            final(game).wf(),
            final(self).ready(final(game)@),
            final(game)@ == old(self).taking_tile(
                old(game)@,
                tile,
                attacker_loss as int,
                defender_loss as int,
            ),
            *final(self) == (AttackExecution {
                troops: old(self).left_after(attacker_loss as int) as i64,
                ..*old(self)
            }),
    {
        let left: i64 = if self.troops > attacker_loss {
            self.troops - attacker_loss
        } else {
            0
        };
        self.set_troops(left);
        game.set_attack_troops(self.owner_small_id, &self.attack_id, left);
        if self.target_is_player {
            game.remove_troops(self.target_small_id, defender_loss);
        }
        game.conquer(self.owner_small_id, tile);
        if self.target_is_player {
            game.overrun(self.owner_small_id, self.target_small_id);
        }
    }

    /// Ends the fight of a tick; the attack goes on.
    pub fn rest(&mut self)
        ensures
            *final(self) == (AttackExecution { fighting: false, ..*old(self) }),
    {
        self.fighting = false;
    }
}

/// An attack only ever takes land of its target that lies next to its owner's and can be
/// passed: whatever else is on its front is dropped.
pub proof fn law_taken_tiles(front: Front, map: MapView, owner: u16, target: u16, tick: u32)
    requires
        front.choosing(map, owner, target, tick).1 is Some,
    ensures
        ({
            let t = front.choosing(map, owner, target, tick).1->0;
            &&& map.owner(t) == target
            &&& map.is_land(t)
            &&& !map.is_impassable(t)
            &&& crate::lists::some_where(
                map.neighbors4(t),
                crate::attack::held_by_player(map, owner),
            )
        }),
    decreases front.heap.len(),
{
    if front.heap.len() > 0 && !map.takable(front.heap[0].1, owner, target) {
        crate::flat_heap::lemma_dequeued_len(front.heap);
        law_taken_tiles(front.popped(), map, owner, target, tick);
    }
}

/// An attack that comes home brings no more than it had, and one that is called back from
/// another player's land leaves a quarter of its troops behind.
pub proof fn law_returning_troops(attack: AttackExecution, troops: i64)
    requires
        attack.remove_troops || attack.source_tile is Some,
        troops >= 0,
    ensures
        attack.survivors(troops as int, 0) == troops,
        attack.target_is_player ==> attack.survivors(troops as int, attack.malus()) == troops - troops
            * 25 / 100,
        !attack.target_is_player ==> attack.survivors(troops as int, attack.malus()) == troops,
{
}

} // verus!
