//! What happens to the structures of a game: they are finished, opened to trains, reloaded,
//! captured and deleted.

use vstd::prelude::*;

use crate::game::{Game, GameView};
use crate::ordered_tiles::TileRef;
use crate::state::{Launch, Player, Unit};
use crate::unit_type::UnitType;

verus! {

/// The ticks between two units that a player deletes.
pub const DELETE_UNIT_COOLDOWN_TICKS: u32 = 300;

/// The ticks for which a unit is marked before it is deleted.
pub const DELETION_MARK_DURATION_TICKS: u32 = 300;

/// Launches without the first of a unit.
pub open spec fn reloaded(launches: Seq<Launch>, id: i32) -> Seq<Launch>
    decreases launches.len(),
{
    if launches.len() == 0 {
        launches
    } else if launches[0].unit_id == id {
        launches.skip(1)
    } else {
        seq![launches[0]] + reloaded(launches.skip(1), id)
    }
}

/// Units that are finished.
pub open spec fn finished() -> spec_fn(Unit) -> bool {
    |u: Unit| !u.under_construction
}

impl GameView {
    /// The game after a unit was found under construction, or no longer.
    pub open spec fn constructing(self, sid: u16, id: i32, under_construction: bool) -> GameView {
        match self.unit(sid, id) {
            Some(u) => self.with_unit(sid, id, Unit { under_construction, ..u }),
            None => self,
        }
    }

    /// The game after a unit got a train station.
    pub open spec fn opening_station(self, sid: u16, id: i32, open: bool) -> GameView {
        match self.unit(sid, id) {
            Some(u) => self.with_unit(sid, id, Unit { has_train_station: open, ..u }),
            None => self,
        }
    }

    /// The game after a unit reloaded a missile: its oldest launch is forgotten.
    pub open spec fn reloading(self, sid: u16, id: i32) -> GameView {
        if self.unit(sid, id) is Some {
            GameView { launches: reloaded(self.launches, id), ..self }
        } else {
            self
        }
    }

    /// The game after a player captured a unit of another; it is no longer to be deleted.
    pub open spec fn capturing(self, from: u16, to: u16, id: i32) -> GameView {
        match self.unit(from, id) {
            Some(u) => if from != to && self.has(to) {
                GameView {
                    units: self.without_unit(from, id).units.push(
                        Unit { owner: to, deletion_tick: None, ..u },
                    ),
                    ..self
                }
            } else {
                self
            },
            None => self,
        }
    }

    /// The levels of a player's finished cities, added up.
    pub open spec fn city_levels(self, sid: u16) -> int {
        crate::game_units::level_sum(self.units_of(sid, UnitType::City).filter(finished()))
    }

    /// Whether a player may delete a unit again. Who never did waits from the start of the
    /// game.
    pub open spec fn may_delete(self, sid: u16) -> bool {
        self.has(sid) && match self.player(sid).last_delete_tick {
            Some(t) => self.tick - t >= DELETE_UNIT_COOLDOWN_TICKS,
            None => self.tick + 1 >= DELETE_UNIT_COOLDOWN_TICKS,
        }
    }

    /// The game after it was noted that a player deletes a unit.
    pub open spec fn noting_deletion(self, sid: u16) -> GameView {
        if self.has(sid) {
            self.with_player(
                sid,
                Player { last_delete_tick: Some(self.tick), ..self.player(sid) },
            )
        } else {
            self
        }
    }

    /// The last tick of a unit that is marked for deletion now.
    pub open spec fn deletion_due(self) -> u32 {
        if self.tick + DELETION_MARK_DURATION_TICKS > u32::MAX {
            u32::MAX
        } else {
            (self.tick + DELETION_MARK_DURATION_TICKS) as u32
        }
    }

    /// The game after a unit was marked for deletion.
    pub open spec fn marking(self, sid: u16, id: i32) -> GameView {
        match self.unit(sid, id) {
            Some(u) => self.with_unit(
                sid,
                id,
                Unit { deletion_tick: Some(self.deletion_due()), ..u },
            ),
            None => self,
        }
    }

    pub open spec fn is_marked(self, sid: u16, id: i32) -> bool {
        match self.unit(sid, id) {
            Some(u) => u.deletion_tick is Some,
            None => false,
        }
    }

    /// Whether a unit is to be deleted now.
    pub open spec fn is_overdue(self, sid: u16, id: i32) -> bool {
        match self.unit(sid, id) {
            Some(u) => u.deletion_tick is Some && self.tick > u.deletion_tick->0,
            None => false,
        }
    }

    /// The game after a structure near a factory got a train station.
    pub open spec fn connecting(self, sid: u16, id: i32) -> GameView {
        match self.unit(sid, id) {
            Some(u) => if self.structure_near(
                u.tile,
                self.config.train_station_max_range as int,
                UnitType::Factory,
            ) {
                self.opening_station(sid, id, true).ordering(
                    crate::orders::Order::TrainStation {
                        small_id: sid,
                        unit_id: id,
                        spawns_trains: false,
                    },
                )
            } else {
                self
            },
            None => self,
        }
    }
}

impl Game {
    pub fn set_unit_under_construction(&mut self, sid: u16, id: i32, under_construction: bool)
        requires
            old(self).wf(),
        ensures
            final(self).wf(),
            final(self)@ == old(self)@.constructing(sid, id, under_construction),
    {
        match self.unit(sid, id) {
            Some(u) => {
                let mut changed: Unit = u;
                changed.under_construction = under_construction;
                self.replace_unit(sid, id, changed);
            },
            None => {},
        }
    }

    pub fn set_has_train_station(&mut self, sid: u16, id: i32, open: bool)
        requires
            old(self).wf(),
        ensures
            final(self).wf(),
            final(self)@ == old(self)@.opening_station(sid, id, open),
    {
        match self.unit(sid, id) {
            Some(u) => {
                let mut changed: Unit = u;
                changed.has_train_station = open;
                self.replace_unit(sid, id, changed);
            },
            None => {},
        }
    }

    /// Reloads a missile of a unit.
    pub fn unit_reload_missile(&mut self, sid: u16, id: i32)
        requires
            old(self).wf(),
        ensures
            final(self).wf(),
            final(self)@ == old(self)@.reloading(sid, id),
    {
        if !self.unit_exists(sid, id) {
            return;
        }
        let n: usize = self.launches.len();
        let ghost all = self.launches@;
        let mut at: usize = 0;
        assert(all.take(0) + reloaded(all.skip(0), id) =~= reloaded(all, id)) by {
            assert(all.skip(0) =~= all);
        }
        while at < n && self.launches[at].unit_id != id
            invariant
                at <= n,
                n == all.len(),
                self.launches@ == all,
                all.take(at as int) + reloaded(all.skip(at as int), id) == reloaded(all, id),
            decreases n - at,
        {
            assert(all.skip(at as int).skip(1) =~= all.skip(at + 1));
            assert(all.take(at as int) + (seq![all[at as int]] + reloaded(all.skip(at + 1), id))
                =~= all.take(at + 1) + reloaded(all.skip(at + 1), id));
            at = at + 1;
        }
        if at < n {
            assert(all.skip(at as int).skip(1) =~= all.skip(at + 1));
            assert(all.remove(at as int) =~= all.take(at as int) + all.skip(at + 1));
            self.launches.remove(at);
        } else {
            assert(all.take(at as int) + all.skip(at as int) =~= all);
        }
    }

    /// Gives a unit to the player that captured it.
    pub fn capture_unit(&mut self, from: u16, to: u16, id: i32)
        requires
            old(self).wf(),
        ensures
            final(self).wf(),
            final(self)@ == old(self)@.capturing(from, to, id),
    {
        let u: Unit = match self.unit(from, id) {
            Some(u) => u,
            None => return,
        };
        if from == to || self.player_by_small_id(to).is_none() {
            return;
        }
        let mut captured: Unit = u;
        captured.owner = to;
        captured.deletion_tick = None;
        self.remove_unit(from, id);
        self.units.push(captured);
    }

    /// The levels of a player's finished cities, added up.
    pub fn completed_city_level_sum(&self, sid: u16) -> (sum: i128)
        requires
            self@.wf(),
        ensures
            sum == self@.city_levels(sid),
    {
        let cities = self.units_of_type(sid, UnitType::City);
        let accepts = |u: Unit| -> (done: bool)
            ensures
                done == finished()(u),
            { !u.under_construction };
        let done = crate::lists::filter_by(&cities, accepts, Ghost(finished()));
        assert forall|i: int| 0 <= i < done@.len() implies (#[trigger] done@[i]).wf() by {
            assert(cities@.contains(done@[i]));
        }
        crate::game_units::total_level(&done)
    }

    /// Whether a player may delete a unit again.
    pub fn can_delete_unit(&self, sid: u16) -> (may: bool)
        ensures
            may == self@.may_delete(sid),
    {
        match self.player_by_small_id(sid) {
            Some(p) => match p.last_delete_tick {
                Some(t) => self.tick as i64 - t as i64 >= DELETE_UNIT_COOLDOWN_TICKS as i64,
                None => self.tick as i64 + 1 >= DELETE_UNIT_COOLDOWN_TICKS as i64,
            },
            None => false,
        }
    }

    /// Notes that a player deletes a unit.
    pub fn record_delete_unit(&mut self, sid: u16)
        requires
            old(self).wf(),
        ensures
            final(self).wf(),
            final(self)@ == old(self)@.noting_deletion(sid),
    {
        let tick: u32 = self.tick;
        if sid >= 1 && sid as usize <= self.players.len() {
            self.players[sid as usize - 1].last_delete_tick = Some(tick);
        }
    }

    pub fn mark_unit_for_deletion(&mut self, sid: u16, id: i32)
        requires
            old(self).wf(),
        ensures
            final(self).wf(),
            final(self)@ == old(self)@.marking(sid, id),
    {
        let due: u32 = if self.tick > u32::MAX - DELETION_MARK_DURATION_TICKS {
            u32::MAX
        } else {
            self.tick + DELETION_MARK_DURATION_TICKS
        };
        match self.unit(sid, id) {
            Some(u) => {
                let mut marked: Unit = u;
                marked.deletion_tick = Some(due);
                self.replace_unit(sid, id, marked);
            },
            None => {},
        }
    }

    pub fn is_unit_marked_for_deletion(&self, sid: u16, id: i32) -> (marked: bool)
        requires
            self@.wf(),
        ensures
            marked == self@.is_marked(sid, id),
    {
        match self.unit(sid, id) {
            Some(u) => u.deletion_tick.is_some(),
            None => false,
        }
    }

    /// Whether a unit is to be deleted now.
    pub fn is_unit_overdue_deletion(&self, sid: u16, id: i32) -> (overdue: bool)
        requires
            self@.wf(),
        ensures
            overdue == self@.is_overdue(sid, id),
    {
        match self.unit(sid, id) {
            Some(u) => match u.deletion_tick {
                Some(t) => self.tick > t,
                None => false,
            },
            None => false,
        }
    }

    /// Gives a structure near a factory a train station.
    pub fn connect_to_rails(&mut self, sid: u16, id: i32)
        requires
            old(self).wf(),
        ensures
            final(self).wf(),
            final(self)@ == old(self)@.connecting(sid, id),
    {
        let tile: TileRef = match self.unit(sid, id) {
            Some(u) => u.tile,
            None => return,
        };
        let range: u32 = self.wire.train_station_max_range;
        if self.has_unit_nearby_any(tile, range, UnitType::Factory) {
            self.set_has_train_station(sid, id, true);
            self.add_execution(
                crate::exec_enum::ExecEnum::TrainStation(
                    crate::orders::TrainStationExecution::new(sid, id, false),
                ),
            );
        }
    }
}

/// A unit that was captured belongs to its captor, is not marked for deletion, and its
/// former owner no longer has it.
pub proof fn law_capture(game: GameView, from: u16, to: u16, id: i32)
    requires
        game.unit(from, id) is Some,
        game.unit(to, id) is None,
        from != to,
        game.has(to),
    ensures
        game.capturing(from, to, id).unit(from, id) is None,
        game.capturing(from, to, id).unit(to, id) == Some(
            Unit { owner: to, deletion_tick: None, ..game.unit(from, id)->0 },
        ),
        !game.capturing(from, to, id).is_marked(to, id),
{
    let u = game.unit(from, id)->0;
    let moved = Unit { owner: to, deletion_tick: None, ..u };
    let kept = game.without_unit(from, id).units;
    let after = game.capturing(from, to, id).units;
    crate::game_units::lemma_unit_at(game.units, from, id);
    crate::lists::lemma_filter_holds(game.units, |u: Unit| !(u.owner == from && u.id == id));
    assert forall|i: int| 0 <= i < kept.len() implies !((#[trigger] kept[i]).owner == from
        && kept[i].id == id) && !(kept[i].owner == to && kept[i].id == id) by {
        assert(kept.contains(kept[i]));
        lemma_no_unit(game.units, to, id);
    }
    crate::game_units::lemma_unit_at(after, from, id);
    lemma_unit_pushed(kept, moved, to, id);
}

/// Where a unit is not found, no entry is that unit.
proof fn lemma_no_unit(units: Seq<Unit>, sid: u16, id: i32)
    requires
        crate::game_units::unit_at(units, sid, id) >= units.len(),
    ensures
        forall|u: Unit| units.contains(u) ==> !(#[trigger] u.owner == sid && u.id == id),
    decreases units.len(),
{
    if units.len() > 0 {
        lemma_no_unit(units.skip(1), sid, id);
        assert forall|u: Unit| units.contains(u) implies !(#[trigger] u.owner == sid && u.id == id) by {
            let i = choose|i: int| 0 <= i < units.len() && units[i] == u;
            if i > 0 {
                assert(units.skip(1)[i - 1] == u);
            }
        }
    }
}

proof fn lemma_unit_pushed(units: Seq<Unit>, u: Unit, sid: u16, id: i32)
    requires
        u.owner == sid,
        u.id == id,
        forall|i: int| 0 <= i < units.len() ==> !((#[trigger] units[i]).owner == sid && units[i].id
            == id),
    ensures
        crate::game_units::unit_at(units.push(u), sid, id) == units.len(),
    decreases units.len(),
{
    if units.len() > 0 {
        assert(!(units[0].owner == sid && units[0].id == id));
        assert(units.push(u).skip(1) =~= units.skip(1).push(u));
        assert forall|i: int| 0 <= i < units.skip(1).len() implies !((#[trigger] units.skip(
            1,
        )[i]).owner == sid && units.skip(1)[i].id == id) by {
            assert(units.skip(1)[i] == units[i + 1]);
        }
        lemma_unit_pushed(units.skip(1), u, sid, id);
    }
}

} // verus!
