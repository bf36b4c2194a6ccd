//! The units of a game.

use vstd::prelude::*;

use crate::game::{Game, GameView};
use crate::map::MapView;
use crate::ordered_tiles::TileRef;
use crate::state::{Launch, Player, Unit};
use crate::unit_type::UnitType;

verus! {

/// The health of a new unit.
pub const UNIT_HEALTH: i64 = 1000;

/// The position of the unit with this owner and id, or the number of units.
pub open spec fn unit_at(units: Seq<Unit>, sid: u16, id: i32) -> int
    decreases units.len(),
{
    if units.len() == 0 {
        0
    } else if units[0].owner == sid && units[0].id == id {
        0
    } else {
        1 + unit_at(units.skip(1), sid, id)
    }
}

pub proof fn lemma_unit_at(units: Seq<Unit>, sid: u16, id: i32)
    ensures
        0 <= unit_at(units, sid, id) <= units.len(),
        unit_at(units, sid, id) < units.len() ==> units[unit_at(units, sid, id)].owner == sid
            && units[unit_at(units, sid, id)].id == id,
    decreases units.len(),
{
    if units.len() > 0 && !(units[0].owner == sid && units[0].id == id) {
        lemma_unit_at(units.skip(1), sid, id);
    }
}

/// The levels of units, added up.
pub open spec fn level_sum(units: Seq<Unit>) -> int
    decreases units.len(),
{
    if units.len() == 0 {
        0
    } else {
        level_sum(units.drop_last()) + units.last().level
    }
}

/// Units counted by level; one that is being built counts once.
pub open spec fn owned_sum(units: Seq<Unit>) -> int
    decreases units.len(),
{
    if units.len() == 0 {
        0
    } else {
        owned_sum(units.drop_last()) + (if units.last().under_construction {
            1int
        } else {
            units.last().level as int
        })
    }
}

impl GameView {
    /// The units of this kind that a player has, oldest first.
    pub open spec fn units_of(self, sid: u16, unit_type: UnitType) -> Seq<Unit> {
        self.units.filter(|u: Unit| u.owner == sid && u.unit_type == unit_type)
    }

    /// The buildings of a player, oldest first.
    pub open spec fn structures_of(self, sid: u16) -> Seq<Unit> {
        self.units.filter(|u: Unit| u.owner == sid && u.unit_type.structure())
    }

    /// The unit with this owner and id.
    pub open spec fn unit(self, sid: u16, id: i32) -> Option<Unit> {
        let at = unit_at(self.units, sid, id);
        if at < self.units.len() {
            Some(self.units[at])
        } else {
            None
        }
    }

    /// The game with `unit` in the place of the one with this owner and id.
    pub open spec fn with_unit(self, sid: u16, id: i32, unit: Unit) -> GameView {
        let at = unit_at(self.units, sid, id);
        if at < self.units.len() {
            GameView { units: self.units.update(at, unit), ..self }
        } else {
            self
        }
    }

    /// The game without the unit of this owner and id.
    pub open spec fn without_unit(self, sid: u16, id: i32) -> GameView {
        GameView { units: self.units.filter(|u: Unit| !(u.owner == sid && u.id == id)), ..self }
    }

    /// The owner of the unit with this id.
    pub open spec fn unit_owner(self, id: i32) -> Option<u16> {
        match crate::lists::first_where(self.units, |u: Unit| u.id == id) {
            Some(u) => Some(u.owner),
            None => None,
        }
    }

    pub open spec fn new_unit(self, sid: u16, unit_type: UnitType, tile: TileRef) -> Unit {
        Unit {
            id: self.next_unit_id,
            owner: sid,
            unit_type,
            tile,
            level: 1,
            under_construction: false,
            target_tile: None,
            targetable: true,
            has_train_station: false,
            rail_cluster: None,
            health: UNIT_HEALTH,
            troops: 0,
            retreating: false,
            deletion_tick: None,
            trajectory_index: 0,
        }
    }

    /// The game after `sid` paid for and got a unit.
    pub open spec fn building(self, sid: u16, unit_type: UnitType, tile: TileRef) -> GameView {
        let paid = if self.has(sid) {
            let left = self.gold(sid) - self.cost(sid, unit_type);
            self.with_player(
                sid,
                Player {
                    gold: (if left < 0 {
                        0
                    } else {
                        left
                    }) as i64,
                    ..self.player(sid)
                },
            )
        } else {
            self
        };
        GameView {
            units: self.units.push(self.new_unit(sid, unit_type, tile)),
            next_unit_id: next_id(self.next_unit_id),
            ..paid
        }
    }

    /// The missiles that a unit launched and has not reloaded.
    pub open spec fn launches_of(self, id: i32) -> Seq<Launch> {
        self.launches.filter(|l: Launch| l.unit_id == id)
    }

    /// Whether a structure of this kind stands within `range` tiles of `tile`.
    pub open spec fn structure_near(self, tile: TileRef, range: int, unit_type: UnitType) -> bool {
        exists|i: int|
            0 <= i < self.units.len() && (#[trigger] self.units[i]).unit_type == unit_type
                && self.map.dist2(tile, self.units[i].tile) <= range * range
    }
}

/// The id after `id`.
pub open spec fn next_id(id: i32) -> i32 {
    if id == i32::MAX {
        1
    } else {
        (id + 1) as i32
    }
}

/// What holds of every unit holds of those that are kept.
pub proof fn lemma_filtered_units(map: MapView, units: Seq<Unit>, p: spec_fn(Unit) -> bool)
    requires
        forall|i: int|
            0 <= i < units.len() ==> (#[trigger] units[i]).wf() && map.valid(units[i].tile) && (
            units[i].target_tile is Some ==> map.valid(units[i].target_tile->0)),
    ensures
        forall|i: int|
            0 <= i < units.filter(p).len() ==> (#[trigger] units.filter(p)[i]).wf() && map.valid(
                units.filter(p)[i].tile,
            ) && (units.filter(p)[i].target_tile is Some ==> map.valid(
                units.filter(p)[i].target_tile->0,
            )) && p(units.filter(p)[i]),
        units.filter(p).len() <= units.len(),
    decreases units.len(),
{
    reveal(Seq::filter);
    if units.len() > 0 {
        let front = units.drop_last();
        assert forall|i: int| 0 <= i < front.len() implies (#[trigger] front[i]).wf() && map.valid(
            front[i].tile,
        ) && (front[i].target_tile is Some ==> map.valid(front[i].target_tile->0)) by {
            assert(front[i] == units[i]);
        }
        lemma_filtered_units(map, front, p);
        assert(units[units.len() - 1] == units.last());
    }
}

impl Game {
    fn unit_index(&self, sid: u16, id: i32) -> (at: usize)
        ensures
            at == unit_at(self@.units, sid, id),
            at <= self@.units.len(),
            at < self@.units.len() ==> self@.units[at as int].owner == sid && self@.units[at as int].id
                == id,
    {
        let mut at: usize = 0;
        assert(self.units@.skip(0) =~= self.units@);
        proof {
            lemma_unit_at(self.units@, sid, id);
        }
        while at < self.units.len()
            invariant
                at <= self.units@.len(),
                unit_at(self.units@, sid, id) == at + unit_at(self.units@.skip(at as int), sid, id),
            decreases self.units@.len() - at,
        {
            let ghost rest = self.units@.skip(at as int);
            assert(rest[0] == self.units@[at as int]);
            if self.units[at].owner == sid && self.units[at].id == id {
                return at;
            }
            assert(rest.skip(1) =~= self.units@.skip(at + 1));
            at += 1;
        }
        at
    }

    /// The unit with this owner and id.
    pub fn unit(&self, sid: u16, id: i32) -> (unit: Option<Unit>)
        requires
            self@.wf(),
        ensures
            unit == self@.unit(sid, id),
            unit is Some ==> unit->0.wf() && unit->0.owner == sid && unit->0.id == id
                && self@.map.valid(unit->0.tile),
            unit is Some && unit->0.target_tile is Some ==> self@.map.valid(unit->0.target_tile->0),
    {
        let at = self.unit_index(sid, id);
        if at < self.units.len() {
            Some(self.units[at])
        } else {
            None
        }
    }

    pub fn unit_exists(&self, sid: u16, id: i32) -> (exists_: bool)
        ensures
            exists_ == (self@.unit(sid, id) is Some),
    {
        self.unit_index(sid, id) < self.units.len()
    }

    /// Puts `unit` in the place of the one with this owner and id.
    pub fn replace_unit(&mut self, sid: u16, id: i32, unit: Unit)
        requires
            old(self).wf(),
            unit.wf(),
            old(self)@.map.valid(unit.tile),
            unit.target_tile is Some ==> old(self)@.map.valid(unit.target_tile->0),
        ensures
            final(self).wf(),
            final(self)@ == old(self)@.with_unit(sid, id, unit),
    {
        let at = self.unit_index(sid, id);
        if at < self.units.len() {
            self.units.set(at, unit);
        }
    }

    /// The owner of the unit with this id.
    pub fn find_unit_owner(&self, id: i32) -> (owner: Option<u16>)
        ensures
            owner == self@.unit_owner(id),
    {
        let ghost p = |u: Unit| u.id == id;
        proof {
            crate::lists::lemma_take_all(self.units@);
        }
        for i in 0..self.units.len()
            invariant
                p == (|u: Unit| u.id == id),
                crate::lists::first_where(self.units@, p) == crate::lists::first_where(
                    self.units@.skip(i as int),
                    p,
                ),
        {
            if self.units[i].id == id {
                proof {
                    crate::lists::lemma_first_where_found(self.units@, p, i as int);
                }
                return Some(self.units[i].owner);
            }
            proof {
                crate::lists::lemma_first_where_step(self.units@, p, i as int);
            }
        }
        None
    }

    /// The units of this kind that a player has, oldest first.
    pub fn units_of_type(&self, sid: u16, unit_type: UnitType) -> (units: Vec<Unit>)
        requires
            self@.wf(),
        ensures
            units@ == self@.units_of(sid, unit_type),
            units@.len() <= self@.units.len(),
            forall|i: int|
                0 <= i < units@.len() ==> (#[trigger] units@[i]).wf() && self@.map.valid(
                    units@[i].tile,
                ) && units@[i].owner == sid && units@[i].unit_type == unit_type,
    {
        let ghost p = |u: Unit| u.owner == sid && u.unit_type == unit_type;
        let mut units: Vec<Unit> = Vec::new();
        assert(self.units@.take(0).filter(p) =~= Seq::empty()) by {
            reveal(Seq::filter);
        }
        for i in 0..self.units.len()
            invariant
                p == (|u: Unit| u.owner == sid && u.unit_type == unit_type),
                units@ == self.units@.take(i as int).filter(p),
        {
            let u: Unit = self.units[i];
            proof {
                crate::lists::lemma_filter_step(self.units@, p, i as int);
            }
            if u.owner == sid && u.unit_type == unit_type {
                units.push(u);
            }
        }
        proof {
            crate::lists::lemma_take_all(self.units@);
            lemma_filtered_units(self@.map, self@.units, p);
        }
        units
    }

    /// The buildings of a player, oldest first.
    pub fn structures_of_player(&self, sid: u16) -> (units: Vec<Unit>)
        requires
            self@.wf(),
        ensures
            units@ == self@.structures_of(sid),
            units@.len() <= self@.units.len(),
            forall|i: int|
                0 <= i < units@.len() ==> (#[trigger] units@[i]).wf() && self@.map.valid(
                    units@[i].tile,
                ) && units@[i].owner == sid && units@[i].unit_type.structure(),
    {
        let ghost p = |u: Unit| u.owner == sid && u.unit_type.structure();
        let mut units: Vec<Unit> = Vec::new();
        assert(self.units@.take(0).filter(p) =~= Seq::empty()) by {
            reveal(Seq::filter);
        }
        for i in 0..self.units.len()
            invariant
                p == (|u: Unit| u.owner == sid && u.unit_type.structure()),
                units@ == self.units@.take(i as int).filter(p),
        {
            let u: Unit = self.units[i];
            proof {
                crate::lists::lemma_filter_step(self.units@, p, i as int);
            }
            if u.owner == sid && u.unit_type.is_structure() {
                units.push(u);
            }
        }
        proof {
            crate::lists::lemma_take_all(self.units@);
            lemma_filtered_units(self@.map, self@.units, p);
        }
        units
    }

    /// The number of units of this kind that a player has.
    pub fn unit_count(&self, sid: u16, unit_type: UnitType) -> (n: usize)
        requires
            self@.wf(),
        ensures
            n == self@.units_of(sid, unit_type).len(),
    {
        self.units_of_type(sid, unit_type).len()
    }

    /// The levels of a player's units of this kind, added up.
    pub fn unit_level_sum(&self, sid: u16, unit_type: UnitType) -> (sum: i128)
        requires
            self@.wf(),
        ensures
            sum == level_sum(self@.units_of(sid, unit_type)),
            sum >= 0,
    {
        let units = self.units_of_type(sid, unit_type);
        total_level(&units)
    }

    /// The units of this kind that a player owns, counted by level.
    pub fn units_owned_count(&self, sid: u16, unit_type: UnitType) -> (sum: i128)
        requires
            self@.wf(),
        ensures
            sum == owned_sum(self@.units_of(sid, unit_type)),
            0 <= sum <= 10_000 * self@.units.len(),
    {
        let units = self.units_of_type(sid, unit_type);
        let mut sum: i128 = 0;
        assert(units@.take(0) =~= Seq::<Unit>::empty());
        for i in 0..units.len()
            invariant
                units@.len() <= self@.units.len(),
                forall|k: int| 0 <= k < units@.len() ==> (#[trigger] units@[k]).wf(),
                sum == owned_sum(units@.take(i as int)),
                0 <= sum <= 10_000 * i,
        {
            assert(units@.take(i + 1).drop_last() =~= units@.take(i as int));
            assert(units@[i as int].wf());
            if units[i].under_construction {
                sum += 1;
            } else {
                sum += units[i].level as i128;
            }
        }
        assert(units@.take(units@.len() as int) =~= units@);
        sum
    }

    /// Takes the unit with this owner and id out of the game.
    pub fn remove_unit(&mut self, sid: u16, id: i32)
        requires
            old(self).wf(),
        ensures
            final(self).wf(),
            final(self)@ == old(self)@.without_unit(sid, id),
    {
        let ghost p = |u: Unit| !(u.owner == sid && u.id == id);
        let mut kept: Vec<Unit> = Vec::new();
        assert(self.units@.take(0).filter(p) =~= Seq::empty()) by {
            reveal(Seq::filter);
        }
        for i in 0..self.units.len()
            invariant
                p == (|u: Unit| !(u.owner == sid && u.id == id)),
                kept@ == self.units@.take(i as int).filter(p),
        {
            let u: Unit = self.units[i];
            proof {
                crate::lists::lemma_filter_step(self.units@, p, i as int);
            }
            if !(u.owner == sid && u.id == id) {
                kept.push(u);
            }
        }
        proof {
            crate::lists::lemma_take_all(self.units@);
            lemma_filtered_units(self@.map, self@.units, p);
        }
        self.units = kept;
    }

    /// Gives a player a unit for its price; returns the unit's id.
    pub fn build_unit(&mut self, sid: u16, unit_type: UnitType, tile: TileRef) -> (id: i32)
        requires
            old(self).wf(),
            old(self)@.map.valid(tile),
        ensures
            final(self).wf(),
            final(self)@ == old(self)@.building(sid, unit_type, tile),
            id == old(self)@.next_unit_id,
    {
        let id: i32 = self.next_unit_id;
        let cost: i64 = self.structure_cost(sid, unit_type);
        if sid >= 1 && sid as usize <= self.players.len() {
            let gold: i64 = self.gold_of(sid);
            let left: i64 = if gold < cost {
                0
            } else {
                gold - cost
            };
            self.players[sid as usize - 1].gold = left;
        }
        let unit = Unit {
            id,
            owner: sid,
            unit_type,
            tile,
            level: 1,
            under_construction: false,
            target_tile: None,
            targetable: true,
            has_train_station: false,
            rail_cluster: None,
            health: UNIT_HEALTH,
            troops: 0,
            retreating: false,
            deletion_tick: None,
            trajectory_index: 0,
        };
        self.units.push(unit);
        self.next_unit_id = if id == i32::MAX {
            1
        } else {
            id + 1
        };
        id
    }

    /// The missiles that a unit launched and has not reloaded, oldest first.
    pub fn launches_of_unit(&self, id: i32) -> (launches: Vec<Launch>)
        ensures
            launches@ == self@.launches_of(id),
    {
        let ghost p = |l: Launch| l.unit_id == id;
        let mut launches: Vec<Launch> = Vec::new();
        assert(self.launches@.take(0).filter(p) =~= Seq::empty()) by {
            reveal(Seq::filter);
        }
        for i in 0..self.launches.len()
            invariant
                p == (|l: Launch| l.unit_id == id),
                launches@ == self.launches@.take(i as int).filter(p),
        {
            let l: Launch = self.launches[i];
            proof {
                crate::lists::lemma_filter_step(self.launches@, p, i as int);
            }
            if l.unit_id == id {
                launches.push(l);
            }
        }
        proof {
            crate::lists::lemma_take_all(self.launches@);
        }
        launches
    }

    /// Whether a unit of this kind stands within `range` tiles of `tile`.
    pub fn has_unit_nearby_any(&self, tile: TileRef, range: u32, unit_type: UnitType) -> (near: bool)
        requires
            self@.wf(),
            self@.map.valid(tile),
        ensures
            near == self@.structure_near(tile, range as int, unit_type),
    {
        assert(range * range <= 0xffff_ffff * 0xffff_ffff) by (nonlinear_arith)
            requires
                0 <= range <= 0xffff_ffff,
        ;
        let reach: u64 = range as u64 * range as u64;
        for i in 0..self.units.len()
            invariant
                self@.wf(),
                self@.map.valid(tile),
                reach == range * range,
                forall|k: int|
                    0 <= k < i ==> !((#[trigger] self@.units[k]).unit_type == unit_type
                        && self@.map.dist2(tile, self@.units[k].tile) <= range * range),
        {
            assert(self@.units[i as int].wf());
            if self.units[i].unit_type == unit_type && self.map.euclidean_dist_squared(
                tile,
                self.units[i].tile,
            ) <= reach {
                return true;
            }
        }
        false
    }
}

/// The levels of units, added up.
pub fn total_level(units: &Vec<Unit>) -> (sum: i128)
    requires
        forall|k: int| 0 <= k < units@.len() ==> (#[trigger] units@[k]).wf(),
    ensures
        sum == level_sum(units@),
        0 <= sum <= 10_000 * units@.len(),
{
    let mut sum: i128 = 0;
    assert(units@.take(0) =~= Seq::<Unit>::empty());
    for i in 0..units.len()
        invariant
            forall|k: int| 0 <= k < units@.len() ==> (#[trigger] units@[k]).wf(),
            sum == level_sum(units@.take(i as int)),
            0 <= sum <= 10_000 * i,
    {
        assert(units@.take(i + 1).drop_last() =~= units@.take(i as int));
        assert(units@[i as int].wf());
        sum += units[i].level as i128;
    }
    assert(units@.take(units@.len() as int) =~= units@);
    sum
}

} // verus!
