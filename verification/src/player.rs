//! What every player goes through each tick.

use vstd::prelude::*;

use crate::execution::Execution;
use crate::game::{Game, GameView};
use crate::orders::Order;
use crate::player_clusters::{tick_later, TICKS_PER_CLUSTER_CALC};
use crate::state::{Alliance, Player, PlayerType, Unit};
use crate::unit_type::UnitType;

verus! {

/// A player's income, losses and death.
pub struct PlayerExecution {
    pub small_id: u16,
    pub active: bool,
}

impl PlayerExecution {
    /// What the execution was created with.
    pub open spec fn order(&self) -> Order {
        Order::Player { small_id: self.small_id }
    }

    pub fn new(small_id: u16) -> (execution: Self)
        ensures
            execution.small_id == small_id,
            execution.active,
    {
        PlayerExecution { small_id, active: true }
    }
}

/// Nukes, which outlive their owner.
pub open spec fn outlives(sid: u16) -> spec_fn(Unit) -> bool {
    |u: Unit| u.owner != sid || u.unit_type.nuke()
}

impl GameView {
    /// The game after one structure of a player went with the land it stands on: to whoever
    /// owns that, or down where nobody does. Defense posts are not taken over.
    pub open spec fn settling_structure(self, sid: u16, u: Unit) -> GameView {
        let owner = self.map.owner(u.tile);
        if owner == sid {
            self
        } else if owner == 0 || u.unit_type == UnitType::DefensePost {
            self.without_unit(sid, u.id)
        } else {
            self.capturing(sid, owner, u.id)
        }
    }

    pub open spec fn settling_structures(self, sid: u16, units: Seq<Unit>) -> GameView
        decreases units.len(),
    {
        if units.len() == 0 {
            self
        } else {
            self.settling_structures(sid, units.drop_last()).settling_structure(sid, units.last())
        }
    }

    /// The game after the structures of a player went with the land they stand on.
    pub open spec fn reconciling(self, sid: u16) -> GameView {
        self.settling_structures(sid, self.structures_of(sid))
    }

    /// The game after a player without land died: its gold, its units and its alliances are
    /// gone.
    pub open spec fn dying(self, sid: u16) -> GameView {
        let dead = self.with_player(sid, Player { alive: false, gold: 0, ..self.player(sid) });
        GameView { units: dead.units.filter(outlives(sid)), ..dead }.leaving_alliances(sid)
    }

    /// The gold that a player earns in a tick.
    pub open spec fn income(self, sid: u16) -> i64 {
        if self.of_type(sid, PlayerType::Bot) {
            self.config.gold_rate_bot
        } else {
            self.config.gold_rate
        }
    }

    /// The game after a player that lives had a tick: troops and gold come in, alliances and
    /// embargoes that are over lapse, and surrounded land is lost.
    pub open spec fn prospering(self, sid: u16, tick: u32) -> GameView {
        self.reinforcing(sid, self.player(sid).troop_rate as int).enriching(
            sid,
            self.income(sid) as int,
        ).expiring_alliances(sid).expiring_embargoes(sid).pruning(sid, tick)
    }

    /// The game after a player had a tick.
    pub open spec fn living(self, sid: u16, tick: u32) -> GameView {
        let faded = self.decaying(sid);
        if !self.has(sid) || self.player(sid).spawn_tile is None {
            faded
        } else {
            let settled = faded.reconciling(sid);
            if settled.tiles_owned(sid) == 0 {
                if self.spawn_phase {
                    settled
                } else {
                    settled.dying(sid)
                }
            } else if settled.is_alive(sid) {
                settled.prospering(sid, tick)
            } else {
                settled
            }
        }
    }
}

proof fn lemma_settling(game: GameView, sid: u16, units: Seq<Unit>)
    ensures
        game.settling_structures(sid, units).map == game.map,
        game.settling_structures(sid, units).players == game.players,
        game.settling_structures(sid, units).spawn_phase == game.spawn_phase,
    decreases units.len(),
{
    if units.len() > 0 {
        lemma_settling(game, sid, units.drop_last());
    }
}

/// Lets the structures of a player go with the land they stand on.
fn reconcile_structure_ownership(game: &mut Game, small_id: u16)
    requires
        old(game).wf(),
    ensures
        final(game).wf(),
        final(game)@ == old(game)@.reconciling(small_id),
        final(game)@.map == old(game)@.map,
        final(game)@.players == old(game)@.players,
        final(game)@.spawn_phase == old(game)@.spawn_phase,
{
    let units = game.structures_of_player(small_id);
    let ghost before = game@;
    assert(units@.take(0) =~= Seq::empty());
    for i in 0..units.len()
        invariant
            game.wf(),
            game@ == before.settling_structures(small_id, units@.take(i as int)),
            game@.map == before.map,
            forall|k: int| 0 <= k < units@.len() ==> before.map.valid((#[trigger] units@[k]).tile),
    {
        assert(units@.take(i + 1).drop_last() =~= units@.take(i as int));
        let u: Unit = units[i];
        assert(before.map.valid(units@[i as int].tile));
        let owner: u16 = game.map.owner_id(u.tile);
        if owner != small_id {
            if owner == 0 || u.unit_type == UnitType::DefensePost {
                game.remove_unit(small_id, u.id);
            } else {
                game.capture_unit(small_id, owner, u.id);
            }
        }
    }
    proof {
        crate::lists::lemma_take_all(units@);
        lemma_settling(before, small_id, units@);
    }
}

/// Lets a player without land die.
fn remove_on_death(game: &mut Game, small_id: u16)
    requires
        old(game).wf(),
        old(game)@.has(small_id),
    ensures
        final(game).wf(),
        final(game)@ == old(game)@.dying(small_id),
{
    game.players[small_id as usize - 1].alive = false;
    game.players[small_id as usize - 1].gold = 0;
    let accepts = |u: Unit| -> (stays: bool)
        ensures
            stays == outlives(small_id)(u),
        { u.owner != small_id || u.unit_type.is_nuke() };
    let kept = crate::lists::filter_by(&game.units, accepts, Ghost(outlives(small_id)));
    proof {
        crate::game_units::lemma_filtered_units(game@.map, game@.units, outlives(small_id));
    }
    game.units = kept;
    game.remove_all_alliances_for(small_id);
}

impl PlayerExecution {
    pub fn small_id(&self) -> (small_id: u16)
        ensures
            small_id == self.small_id,
    {
        self.small_id
    }

    /// The execution after a tick: it ends with the player.
    pub open spec fn next(&self, game: GameView) -> PlayerExecution {
        let settled = game.decaying(self.small_id).reconciling(self.small_id);
        PlayerExecution {
            active: self.active && game.has(self.small_id) && (game.player(
                self.small_id,
            ).spawn_tile is None || settled.tiles_owned(self.small_id) != 0 || game.spawn_phase),
            ..*self
        }
    }
}

impl Execution for PlayerExecution {
    open spec fn ready(&self, game: GameView) -> bool {
        true
    }

    /// When the player's clusters are first looked at depends on its id.
    open spec fn begun(&self, game: GameView, tick: u32) -> GameView {
        if game.has(self.small_id) {
            game.noting_clusters(
                self.small_id,
                crate::player_clusters::later(
                    tick,
                    (crate::util::hash_of(game.player(self.small_id).id@)
                        % (TICKS_PER_CLUSTER_CALC as int)) as u32,
                ),
            )
        } else {
            game
        }
    }

    open spec fn ticked(&self, game: GameView, tick: u32) -> GameView {
        if self.active {
            game.living(self.small_id, tick)
        } else {
            game
        }
    }

    open spec fn begun_as(&self, game: GameView, tick: u32, next: Self) -> bool {
        next == *self
    }

    open spec fn ticked_as(&self, game: GameView, tick: u32, next: Self) -> bool {
        next == self.next(game)
    }

    open spec fn going(&self) -> bool {
        self.active
    }

    fn init(&mut self, game: &mut Game, tick: u32) {
        let sid: u16 = self.small_id;
        if sid >= 1 && sid as usize <= game.players.len() {
            let hash: i32 = crate::util::simple_hash(&game.players[sid as usize - 1].id);
            game.note_clusters(sid, tick_later(tick, hash as u32 % TICKS_PER_CLUSTER_CALC));
        }
    }

    fn tick(&mut self, game: &mut Game, tick: u32) {
        if !self.active {
            return;
        }
        let sid: u16 = self.small_id;
        game.decay_relations(sid);
        let spawning: bool = game.in_spawn_phase();
        if sid < 1 || sid as usize > game.players.len() {
            self.active = false;
            return;
        }
        if game.players[sid as usize - 1].spawn_tile.is_none() {
            return;
        }
        reconcile_structure_ownership(game, sid);
        if game.tiles_of(sid) == 0 {
            if !spawning {
                remove_on_death(game, sid);
                self.active = false;
            }
            return;
        }
        if !game.is_player_alive(sid) {
            return;
        }
        let troops: i64 = game.players[sid as usize - 1].troop_rate;
        let gold: i64 = if game.is_of_type(sid, PlayerType::Bot) {
            game.wire.gold_rate_bot
        } else {
            game.wire.gold_rate
        };
        assert(game@.players[sid - 1].wf());
        game.add_troops(sid, troops);
        game.add_gold(sid, gold);
        game.expire_alliances_for(sid);
        game.expire_temporary_embargoes_for(sid);
        crate::player_clusters::maybe_remove_clusters(game, sid, tick);
    }

    fn is_active(&self) -> (active: bool) {
        self.active
    }
}

/// A player dies only without land, outside the spawn phase, and then for good: its
/// execution ends, and its alliances are over.
pub proof fn law_death(execution: PlayerExecution, game: GameView, tick: u32)
    requires
        game.wf(),
        execution.active,
        game.has(execution.small_id),
        game.player(execution.small_id).spawn_tile is Some,
        game.tiles_owned(execution.small_id) == 0,
        !game.spawn_phase,
    ensures
        !execution.next(game).going(),
        !execution.ticked(game, tick).is_alive(execution.small_id),
        execution.ticked(game, tick).gold(execution.small_id) == 0,
        execution.ticked(game, tick).alliance_count(execution.small_id) == 0,
{
    let sid = execution.small_id;
    let faded = game.decaying(sid);
    lemma_settling(faded, sid, faded.structures_of(sid));
    let settled = faded.reconciling(sid);
    let left = settled.alliances.filter(crate::game_diplomacy::without_member(sid));
    let p = |x: Alliance| x.involves(sid);
    crate::lists::lemma_filter_holds(
        settled.alliances,
        crate::game_diplomacy::without_member(sid),
    );
    crate::lists::lemma_filter_holds(left, p);
    if left.filter(p).len() > 0 {
        let a = left.filter(p)[0];
        assert(left.filter(p).contains(a));
        assert(left.contains(a));
    }
}

} // verus!
