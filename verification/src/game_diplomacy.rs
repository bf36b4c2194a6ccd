//! What players grant each other, and what of it lapses in time.

use vstd::prelude::*;

use crate::config::TROOP_SCALE;
use crate::game::{Game, GameView};
use crate::ordered_tiles::TileRef;
use crate::state::{Alliance, Embargo, LandAttackView, Player, PlayerType, RelationEntry, Unit};
use crate::unit_type::UnitType;

verus! {

/// The ticks between two embargoes of a player against everybody.
pub const EMBARGO_ALL_COOLDOWN: u32 = 100;

/// By how much relations fade in a tick.
pub const RELATION_DECAY: i32 = 5;

/// A relation value after it faded for a tick.
pub open spec fn faded(value: int) -> int {
    let next = if value > 0 {
        value - RELATION_DECAY
    } else if value < 0 {
        value + RELATION_DECAY
    } else {
        0
    };
    if -2 * RELATION_DECAY < next && next < 2 * RELATION_DECAY {
        0
    } else {
        next
    }
}

/// Lets the relations of a player fade.
pub open spec fn fading(sid: u16) -> spec_fn(RelationEntry) -> RelationEntry {
    |e: RelationEntry|
        if e.from == sid {
            RelationEntry { value: faded(e.value as int) as i32, ..e }
        } else {
            e
        }
}

/// Alliances that a player is not in.
pub open spec fn without_member(sid: u16) -> spec_fn(Alliance) -> bool {
    |a: Alliance| !a.involves(sid)
}

/// Orders the retreat of an attack.
pub open spec fn retreat_ordered(owner: u16, id: Seq<char>) -> spec_fn(LandAttackView) -> LandAttackView {
    |a: LandAttackView|
        if a.attacker == owner && a.id == id {
            LandAttackView { retreating: true, ..a }
        } else {
            a
        }
}

/// Carries out the retreat of an attack.
pub open spec fn retreat_done(owner: u16, id: Seq<char>) -> spec_fn(LandAttackView) -> LandAttackView {
    |a: LandAttackView|
        if a.attacker == owner && a.id == id {
            LandAttackView { retreated: true, ..a }
        } else {
            a
        }
}

impl Alliance {
    /// The alliance after one of its members wished to extend it. Once both did, it is
    /// extended.
    pub open spec fn extended(self, from: u16, until: u64) -> Alliance {
        let wished = Alliance {
            requestor_extends: self.requestor_extends || self.requestor == from,
            recipient_extends: self.recipient_extends || self.recipient == from,
            ..self
        };
        if wished.requestor_extends && wished.recipient_extends {
            Alliance {
                expires_at: until,
                requestor_extends: false,
                recipient_extends: false,
                ..wished
            }
        } else {
            wished
        }
    }
}

impl GameView {
    /// The small id of the player with this id.
    pub open spec fn known(self, id: Seq<char>) -> Option<u16> {
        match self.by_id(id) {
            Some(p) => Some(p.small_id),
            None => None,
        }
    }

    /// The part of an amount of gold that a player has.
    pub open spec fn payable(self, sid: u16, amount: int) -> int {
        if amount <= 0 {
            0
        } else if amount < self.gold(sid) {
            amount
        } else {
            self.gold(sid)
        }
    }

    /// Whether a player may give another troops.
    pub open spec fn may_donate_troops(self, sender: u16, recipient: u16) -> bool {
        self.may_donate(sender, recipient) && (self.config.donate_troops || !self.of_type(
            recipient,
            PlayerType::Human,
        ))
    }

    /// Whether a player may give another gold.
    pub open spec fn may_donate_gold(self, sender: u16, recipient: u16) -> bool {
        self.may_donate(sender, recipient) && (self.config.donate_gold || !self.of_type(
            recipient,
            PlayerType::Human,
        ))
    }

    /// Only living friends give to each other, and nobody to itself.
    pub open spec fn may_donate(self, sender: u16, recipient: u16) -> bool {
        sender != recipient && self.is_alive(sender) && self.is_alive(recipient)
            && self.is_friendly(sender, recipient)
    }

    /// The most that a player can be given, in scaled troops.
    pub open spec fn room_for_troops(self, sid: u16) -> int {
        (self.max_troops_milli(sid) - self.troops(sid) * 1000) * (TROOP_SCALE / 1000)
    }

    pub open spec fn may_embargo_all(self, sid: u16) -> bool {
        self.has(sid) && match self.player(sid).last_embargo_all_tick {
            Some(t) => self.tick - t >= EMBARGO_ALL_COOLDOWN,
            None => true,
        }
    }

    pub open spec fn noting_embargo_all(self, sid: u16) -> GameView {
        if self.has(sid) {
            self.with_player(
                sid,
                Player { last_embargo_all_tick: Some(self.tick), ..self.player(sid) },
            )
        } else {
            self
        }
    }

    pub open spec fn extension(self, from: u16, to: u16) -> spec_fn(Alliance) -> Alliance {
        |a: Alliance|
            if a.joins(from, to) {
                a.extended(from, (self.tick + self.config.alliance_duration) as u64)
            } else {
                a
            }
    }

    /// The game after `from` wished to extend its alliance with `to`.
    pub open spec fn extending(self, from: u16, to: u16) -> GameView {
        GameView { alliances: self.alliances.map_values(self.extension(from, to)), ..self }
    }

    pub open spec fn lasting(self, sid: u16) -> spec_fn(Alliance) -> bool {
        |a: Alliance| !(a.involves(sid) && a.expires_at <= self.tick)
    }

    /// The game after the alliances of a player that are over lapsed.
    pub open spec fn expiring_alliances(self, sid: u16) -> GameView {
        GameView { alliances: self.alliances.filter(self.lasting(sid)), ..self }
    }

    pub open spec fn unlifted(self, sid: u16) -> spec_fn(Embargo) -> bool {
        |e: Embargo|
            !(e.from == sid && e.temporary && self.tick - e.created_at
                > self.config.temporary_embargo_duration)
    }

    /// The game after the temporary embargoes of a player that are over lapsed.
    pub open spec fn expiring_embargoes(self, sid: u16) -> GameView {
        GameView { embargoes: self.embargoes.filter(self.unlifted(sid)), ..self }
    }

    /// The game after a player's relations faded for a tick.
    pub open spec fn decaying(self, sid: u16) -> GameView {
        GameView { relations: self.relations.map_values(fading(sid)), ..self }
    }

    /// The game after a player left all its alliances.
    pub open spec fn leaving_alliances(self, sid: u16) -> GameView {
        GameView { alliances: self.alliances.filter(without_member(sid)), ..self }
    }

    pub open spec fn ordering_retreat(self, sid: u16, id: Seq<char>) -> GameView {
        GameView { attacks: self.attacks.map_values(retreat_ordered(sid, id)), ..self }
    }

    pub open spec fn retreating(self, sid: u16, id: Seq<char>) -> GameView {
        GameView { attacks: self.attacks.map_values(retreat_done(sid, id)), ..self }
    }

    /// The game after a boat was told to turn back.
    pub open spec fn turning_back(self, sid: u16, id: i32) -> GameView {
        match self.unit(sid, id) {
            Some(u) => if u.unit_type == UnitType::Transport {
                self.with_unit(sid, id, Unit { retreating: true, ..u })
            } else {
                self
            },
            None => self,
        }
    }

    /// The game after a player sent a warship to patrol elsewhere.
    pub open spec fn patrolling(self, sid: u16, id: i32, position: TileRef) -> GameView {
        match self.unit(sid, id) {
            Some(u) => if u.unit_type == UnitType::Warship && self.map.valid(position) {
                self.with_unit(sid, id, Unit { target_tile: Some(position), ..u })
            } else {
                self
            },
            None => self,
        }
    }

    pub open spec fn patrolling_all(self, sid: u16, ids: Seq<i32>, position: TileRef) -> GameView
        decreases ids.len(),
    {
        if ids.len() == 0 {
            self
        } else {
            self.patrolling_all(sid, ids.drop_last(), position).patrolling(
                sid,
                ids.last(),
                position,
            )
        }
    }
}

impl Game {
    /// The small id of the player with this id.
    pub fn small_id_of(&self, id: &String) -> (sid: Option<u16>)
        requires
            self@.wf(),
        ensures
            sid == self@.known(id@),
            sid is Some ==> self@.has(sid->0),
    {
        match self.player_by_id(id) {
            Some(p) => Some(p.small_id),
            None => None,
        }
    }

    pub fn can_donate_troops(&self, sender: u16, recipient: u16) -> (may: bool)
        ensures
            may == self@.may_donate_troops(sender, recipient),
    {
        self.can_donate(sender, recipient) && (self.wire.donate_troops || !self.is_of_type(
            recipient,
            PlayerType::Human,
        ))
    }

    pub fn can_donate_gold(&self, sender: u16, recipient: u16) -> (may: bool)
        ensures
            may == self@.may_donate_gold(sender, recipient),
    {
        self.can_donate(sender, recipient) && (self.wire.donate_gold || !self.is_of_type(
            recipient,
            PlayerType::Human,
        ))
    }

    fn can_donate(&self, sender: u16, recipient: u16) -> (may: bool)
        ensures
            may == self@.may_donate(sender, recipient),
    {
        sender != recipient && self.is_player_alive(sender) && self.is_player_alive(recipient)
            && self.is_friendly(sender, recipient)
    }

    pub fn can_embargo_all(&self, sid: u16) -> (may: bool)
        ensures
            may == self@.may_embargo_all(sid),
    {
        match self.player_by_small_id(sid) {
            Some(p) => match p.last_embargo_all_tick {
                Some(t) => self.tick as i64 - t as i64 >= EMBARGO_ALL_COOLDOWN as i64,
                None => true,
            },
            None => false,
        }
    }

    pub fn record_embargo_all(&mut self, sid: u16)
        requires
            old(self).wf(),
        ensures
            final(self).wf(),
            final(self)@ == old(self)@.noting_embargo_all(sid),
    {
        let tick: u32 = self.tick;
        if sid >= 1 && sid as usize <= self.players.len() {
            self.players[sid as usize - 1].last_embargo_all_tick = Some(tick);
        }
    }

    pub fn add_alliance_extension_request(&mut self, from: u16, to: u16)
        requires
            old(self).wf(),
        ensures
            final(self).wf(),
            final(self)@ == old(self)@.extending(from, to),
    {
        let n: usize = self.alliances.len();
        let until: u64 = self.tick as u64 + self.wire.alliance_duration as u64;
        let ghost before = self@;
        let ghost f = before.extension(from, to);
        for i in 0..n
            invariant
                n == self.alliances@.len(),
                n == before.alliances.len(),
                until == before.tick + before.config.alliance_duration,
                f == before.extension(from, to),
                forall|k: int| 0 <= k < i ==> self.alliances@[k] == f(#[trigger] before.alliances[k]),
                forall|k: int| i <= k < n ==> self.alliances@[k] == before.alliances[k],
                self@ == (GameView { alliances: self.alliances@, ..before }),
                self.wf(),
                before.wf(),
        {
            let mut a: Alliance = self.alliances[i];
            if a.is_between(from, to) {
                if a.requestor == from {
                    a.requestor_extends = true;
                }
                if a.recipient == from {
                    a.recipient_extends = true;
                }
                if a.requestor_extends && a.recipient_extends {
                    a.expires_at = until;
                    a.requestor_extends = false;
                    a.recipient_extends = false;
                }
                self.alliances.set(i, a);
            }
        }
        assert(self.alliances@ =~= before.alliances.map_values(f));
    }

    pub fn expire_alliances_for(&mut self, sid: u16)
        requires
            old(self).wf(),
        ensures
            final(self).wf(),
            final(self)@ == old(self)@.expiring_alliances(sid),
    {
        let game_now: &Game = self;
        let tick: u32 = game_now.tick;
        let accepts = |a: Alliance| -> (lasts: bool)
            ensures
                lasts == game_now@.lasting(sid)(a),
            { !((a.requestor == sid || a.recipient == sid) && a.expires_at <= tick as u64) };
        let kept = crate::lists::filter_by(
            &game_now.alliances,
            accepts,
            Ghost(game_now@.lasting(sid)),
        );
        self.alliances = kept;
    }

    pub fn expire_temporary_embargoes_for(&mut self, sid: u16)
        requires
            old(self).wf(),
        ensures
            final(self).wf(),
            final(self)@ == old(self)@.expiring_embargoes(sid),
    {
        let game_now: &Game = self;
        let tick: i64 = game_now.tick as i64;
        let duration: i64 = game_now.wire.temporary_embargo_duration as i64;
        let accepts = |e: Embargo| -> (lasts: bool)
            ensures
                lasts == game_now@.unlifted(sid)(e),
            { !(e.from == sid && e.temporary && tick - e.created_at as i64 > duration) };
        let kept = crate::lists::filter_by(
            &game_now.embargoes,
            accepts,
            Ghost(game_now@.unlifted(sid)),
        );
        self.embargoes = kept;
    }

    /// Lets a player's relations fade for a tick.
    pub fn decay_relations(&mut self, sid: u16)
        requires
            old(self).wf(),
        ensures
            final(self).wf(),
            final(self)@ == old(self)@.decaying(sid),
    {
        let n: usize = self.relations.len();
        let ghost before = self@;
        let ghost f = fading(sid);
        for i in 0..n
            invariant
                n == self.relations@.len(),
                n == before.relations.len(),
                f == fading(sid),
                forall|k: int| 0 <= k < i ==> self.relations@[k] == f(#[trigger] before.relations[k]),
                forall|k: int| i <= k < n ==> self.relations@[k] == before.relations[k],
                self@ == (GameView { relations: self.relations@, ..before }),
                self.wf(),
                before.wf(),
        {
            let mut e: RelationEntry = self.relations[i];
            if e.from == sid {
                let next: i32 = if e.value > 0 {
                    e.value - RELATION_DECAY
                } else if e.value < 0 {
                    e.value + RELATION_DECAY
                } else {
                    0
                };
                e.value = if -2 * RELATION_DECAY < next && next < 2 * RELATION_DECAY {
                    0
                } else {
                    next
                };
                self.relations.set(i, e);
            }
        }
        assert(self.relations@ =~= before.relations.map_values(f));
    }

    pub fn remove_all_alliances_for(&mut self, sid: u16)
        requires
            old(self).wf(),
        ensures
            final(self).wf(),
            final(self)@ == old(self)@.leaving_alliances(sid),
    {
        let accepts = |a: Alliance| -> (stays: bool)
            ensures
                stays == without_member(sid)(a),
            { a.requestor != sid && a.recipient != sid };
        let kept = crate::lists::filter_by(&self.alliances, accepts, Ghost(without_member(sid)));
        self.alliances = kept;
    }

    pub fn order_retreat(&mut self, sid: u16, id: &String)
        requires
            old(self).wf(),
        ensures
            final(self).wf(),
            final(self)@ == old(self)@.ordering_retreat(sid, id@),
    {
        let n: usize = self.attacks.len();
        let ghost before = self@;
        let ghost f = retreat_ordered(sid, id@);
        for i in 0..n
            invariant
                n == self.attacks@.len(),
                n == self@.attacks.len(),
                n == before.attacks.len(),
                f == retreat_ordered(sid, id@),
                forall|k: int| 0 <= k < i ==> self@.attacks[k] == f(#[trigger] before.attacks[k]),
                forall|k: int| i <= k < n ==> self@.attacks[k] == before.attacks[k],
                self@ == (GameView { attacks: self@.attacks, ..before }),
                self.wf(),
                before.wf(),
        {
            assert(before.attacks[i as int].wf());
            if self.attacks[i].attacker == sid && self.attacks[i].id == *id {
                self.attacks[i].retreating = true;
            }
            assert(self@.attacks[i as int] == self.attacks@[i as int]@);
            assert(self@.attacks[i as int] == f(before.attacks[i as int]));
            assert forall|k: int| 0 <= k < n implies (#[trigger] self@.attacks[k]).wf() by {
                assert(before.attacks[k].wf());
            }
        }
        assert(self@.attacks =~= before.attacks.map_values(f));
    }

    pub fn execute_retreat(&mut self, sid: u16, id: &String)
        requires
            old(self).wf(),
        ensures
            final(self).wf(),
            final(self)@ == old(self)@.retreating(sid, id@),
    {
        let n: usize = self.attacks.len();
        let ghost before = self@;
        let ghost f = retreat_done(sid, id@);
        for i in 0..n
            invariant
                n == self.attacks@.len(),
                n == self@.attacks.len(),
                n == before.attacks.len(),
                f == retreat_done(sid, id@),
                forall|k: int| 0 <= k < i ==> self@.attacks[k] == f(#[trigger] before.attacks[k]),
                forall|k: int| i <= k < n ==> self@.attacks[k] == before.attacks[k],
                self@ == (GameView { attacks: self@.attacks, ..before }),
                self.wf(),
                before.wf(),
        {
            assert(before.attacks[i as int].wf());
            if self.attacks[i].attacker == sid && self.attacks[i].id == *id {
                self.attacks[i].retreated = true;
            }
            assert(self@.attacks[i as int] == self.attacks@[i as int]@);
            assert(self@.attacks[i as int] == f(before.attacks[i as int]));
            assert forall|k: int| 0 <= k < n implies (#[trigger] self@.attacks[k]).wf() by {
                assert(before.attacks[k].wf());
            }
        }
        assert(self@.attacks =~= before.attacks.map_values(f));
    }

    pub fn order_boat_retreat(&mut self, sid: u16, id: i32)
        requires
            old(self).wf(),
        ensures
            final(self).wf(),
            final(self)@ == old(self)@.turning_back(sid, id),
    {
        match self.unit(sid, id) {
            Some(u) => {
                if u.unit_type == UnitType::Transport {
                    let mut turned: Unit = u;
                    turned.retreating = true;
                    self.replace_unit(sid, id, turned);
                }
            },
            None => {},
        }
    }

    fn send_warship(&mut self, sid: u16, id: i32, position: TileRef)
        requires
            old(self).wf(),
        ensures
            final(self).wf(),
            final(self)@ == old(self)@.patrolling(sid, id, position),
    {
        match self.unit(sid, id) {
            Some(u) => {
                if u.unit_type == UnitType::Warship && (position as usize) < self.map.tiles.len() {
                    let mut sent: Unit = u;
                    sent.target_tile = Some(position);
                    self.replace_unit(sid, id, sent);
                }
            },
            None => {},
        }
    }

    pub fn move_warships(&mut self, sid: u16, ids: &Vec<i32>, position: TileRef)
        requires
            old(self).wf(),
        ensures
            final(self).wf(),
            final(self)@ == old(self)@.patrolling_all(sid, ids@, position),
    {
        let ghost before = self@;
        assert(ids@.take(0) =~= Seq::empty());
        for i in 0..ids.len()
            invariant
                self.wf(),
                self@ == before.patrolling_all(sid, ids@.take(i as int), position),
        {
            assert(ids@.take(i + 1).drop_last() =~= ids@.take(i as int));
            self.send_warship(sid, ids[i], position);
        }
        proof {
            crate::lists::lemma_take_all(ids@);
        }
    }
}

} // verus!
