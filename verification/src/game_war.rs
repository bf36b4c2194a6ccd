//! Troops, gold and attacks of a game.

use vstd::prelude::*;

use crate::attack::AttackExecution;
use crate::config::{MAX_GOLD, TROOP_SCALE};
use crate::exec_enum::ExecEnum;
use crate::game::{Game, GameView};
use crate::ordered_tiles::TileRef;
use crate::orders::{Order, TransportShipExecution};
use crate::state::{LandAttack, LandAttackView, Player, PlayerType, MAX_ATTACK, MAX_TROOPS};

verus! {

/// An attack as the one who is attacked sees it.
#[derive(Clone, Copy, Debug, PartialEq, Eq, Structural)]
pub struct AttackInfo {
    pub attacker_small_id: u16,
    /// The attack's troops, scaled.
    pub troops: i64,
}

pub open spec fn info(attack: LandAttackView) -> AttackInfo {
    AttackInfo { attacker_small_id: attack.attacker, troops: attack.troops }
}

/// The troops of attacks, added up.
pub open spec fn troop_sum(attacks: Seq<AttackInfo>) -> int
    decreases attacks.len(),
{
    if attacks.len() == 0 {
        0
    } else {
        troop_sum(attacks.drop_last()) + attacks.last().troops
    }
}

/// The attacker with the largest attack, the first where several are as large; an attack
/// without troops does not count.
pub open spec fn largest_attacker(attacks: Seq<AttackInfo>) -> Option<AttackInfo>
    decreases attacks.len(),
{
    if attacks.len() == 0 {
        None
    } else {
        let held = largest_attacker(attacks.drop_last());
        let last = attacks.last();
        let bar = match held {
            Some(a) => a.troops,
            None => 0,
        };
        if last.troops > bar {
            Some(last)
        } else {
            held
        }
    }
}

impl GameView {
    /// The attacks on a player, oldest first; `land_only` leaves out those that came by
    /// sea.
    pub open spec fn incoming(self, sid: u16, land_only: bool) -> Seq<AttackInfo> {
        self.attacks.filter(
            |a: LandAttackView| a.target == sid && !(land_only && a.from_sea),
        ).map_values(|a: LandAttackView| info(a))
    }

    /// The attacks of a player, oldest first.
    pub open spec fn outgoing(self, sid: u16) -> Seq<AttackInfo> {
        self.attacks.filter(|a: LandAttackView| a.attacker == sid).map_values(
            |a: LandAttackView| info(a),
        )
    }

    /// The player with the largest attack on `sid`. Attacks by bots count only against
    /// bots.
    pub open spec fn main_attacker(self, sid: u16) -> Option<u16> {
        let serious = self.incoming(sid, false).filter(
            |a: AttackInfo|
                self.of_type(sid, PlayerType::Bot) || !self.of_type(
                    a.attacker_small_id,
                    PlayerType::Bot,
                ),
        );
        match largest_attacker(serious) {
            Some(a) => Some(a.attacker_small_id),
            None => None,
        }
    }

    /// The whole troops that `sid` can lose when `amount` scaled troops are asked for.
    pub open spec fn losable(self, sid: u16, amount: int) -> int {
        let asked = if amount <= 0 {
            0
        } else {
            amount / (TROOP_SCALE as int)
        };
        if asked < self.troops(sid) {
            asked
        } else {
            self.troops(sid)
        }
    }

    /// The game after `sid` lost up to `amount` scaled troops.
    pub open spec fn losing(self, sid: u16, amount: int) -> GameView {
        if self.has(sid) {
            self.with_player(
                sid,
                Player {
                    troops: (self.troops(sid) - self.losable(sid, amount)) as i64,
                    ..self.player(sid)
                },
            )
        } else {
            self
        }
    }

    /// The game after the troops of `sid` changed by `amount`, scaled; what is lost or
    /// gained is rounded towards none.
    pub open spec fn reinforcing(self, sid: u16, amount: int) -> GameView {
        if amount < 0 {
            self.losing(sid, -amount)
        } else if self.has(sid) {
            let sum = self.troops(sid) + amount / (TROOP_SCALE as int);
            self.with_player(
                sid,
                Player {
                    troops: (if sum > MAX_TROOPS {
                        MAX_TROOPS as int
                    } else {
                        sum
                    }) as i64,
                    ..self.player(sid)
                },
            )
        } else {
            self
        }
    }

    /// The game after the gold of `sid` changed to `gold`, kept in range.
    pub open spec fn enriching(self, sid: u16, amount: int) -> GameView {
        if self.has(sid) {
            let sum = self.gold(sid) + amount;
            self.with_player(
                sid,
                Player {
                    gold: (if sum > MAX_GOLD {
                        MAX_GOLD as int
                    } else if sum < 0 {
                        0
                    } else {
                        sum
                    }) as i64,
                    ..self.player(sid)
                },
            )
        } else {
            self
        }
    }

    /// The order for an attack over land.
    pub open spec fn attacking(self, sid: u16, target: Option<Seq<char>>, troops: int) -> GameView {
        self.ordering(Order::Attack { owner: sid, target, troops: Some(troops), source: None })
    }

    /// The order for an attack by boat.
    pub open spec fn shipping(self, sid: u16, dst: TileRef, troops: int) -> GameView {
        self.ordering(Order::TransportShip { owner: sid, dst, troops })
    }

    /// The player with this id.
    pub open spec fn by_id(self, id: Seq<char>) -> Option<Player> {
        crate::lists::first_where(self.players, |p: Player| p.id@ == id)
    }

    /// The player of this client.
    pub open spec fn by_client(self, client: Seq<char>) -> Option<Player> {
        crate::lists::first_where(self.players, |p: Player| p.client_id@ == client)
    }

    /// A player that a search finds is the one with its small id.
    pub proof fn lemma_found(self, p: spec_fn(Player) -> bool)
        requires
            self.wf(),
        ensures
            crate::lists::first_where(self.players, p) is Some ==> self.has(
                crate::lists::first_where(self.players, p)->0.small_id,
            ) && self.player(crate::lists::first_where(self.players, p)->0.small_id)
                == crate::lists::first_where(self.players, p)->0 && p(
                crate::lists::first_where(self.players, p)->0,
            ),
    {
        crate::lists::lemma_first_where(self.players, p);
        match crate::lists::first_where(self.players, p) {
            Some(x) => {
                let k = choose|k: int| 0 <= k < self.players.len() && self.players[k] == x;
                assert(self.players[k].small_id == k + 1);
            },
            None => {},
        }
    }
}

/// The troops of attacks, added up.
pub fn total_troops(attacks: &Vec<AttackInfo>) -> (sum: i128)
    requires
        forall|i: int| 0 <= i < attacks@.len() ==> -MAX_ATTACK <= (#[trigger] attacks@[i]).troops
            <= MAX_ATTACK,
    ensures
        sum == troop_sum(attacks@),
        -(MAX_ATTACK * attacks@.len()) <= sum <= MAX_ATTACK * attacks@.len(),
{
    let mut sum: i128 = 0;
    assert(attacks@.take(0) =~= Seq::<AttackInfo>::empty());
    for i in 0..attacks.len()
        invariant
            forall|k: int|
                0 <= k < attacks@.len() ==> -MAX_ATTACK <= (#[trigger] attacks@[k]).troops
                    <= MAX_ATTACK,
            sum == troop_sum(attacks@.take(i as int)),
            -(MAX_ATTACK * i) <= sum <= MAX_ATTACK * i,
    {
        assert(attacks@.take(i + 1).drop_last() =~= attacks@.take(i as int));
        assert(-MAX_ATTACK <= attacks@[i as int].troops <= MAX_ATTACK);
        sum += attacks[i].troops as i128;
    }
    assert(attacks@.take(attacks@.len() as int) =~= attacks@);
    sum
}

impl Game {
    /// The attacks on a player, oldest first.
    pub fn incoming_attacks(&self, sid: u16, land_only: bool) -> (attacks: Vec<AttackInfo>)
        requires
            self@.wf(),
        ensures
            attacks@ == self@.incoming(sid, land_only),
            attacks@.len() <= self@.attacks.len(),
            forall|i: int|
                0 <= i < attacks@.len() ==> -MAX_ATTACK <= (#[trigger] attacks@[i]).troops
            <= MAX_ATTACK,
    {
        let ghost p = |a: LandAttackView| a.target == sid && !(land_only && a.from_sea);
        let ghost f = |a: LandAttackView| info(a);
        let mut attacks: Vec<AttackInfo> = Vec::new();
        assert(self@.attacks.take(0).filter(p).map_values(f) =~= Seq::empty()) by {
            reveal(Seq::filter);
        }
        for i in 0..self.attacks.len()
            invariant
                self@.wf(),
                p == (|a: LandAttackView| a.target == sid && !(land_only && a.from_sea)),
                f == (|a: LandAttackView| info(a)),
                attacks@ == self@.attacks.take(i as int).filter(p).map_values(f),
                attacks@.len() <= i,
                forall|k: int|
                    0 <= k < attacks@.len() ==> -MAX_ATTACK <= (#[trigger] attacks@[k]).troops
                    <= MAX_ATTACK,
        {
            proof {
                crate::lists::lemma_filter_step(self@.attacks, p, i as int);
                assert(self@.attacks[i as int].wf());
            }
            let ghost held = self@.attacks.take(i as int).filter(p);
            let a: &LandAttack = &self.attacks[i];
            if a.target == sid && !(land_only && a.from_sea) {
                attacks.push(AttackInfo { attacker_small_id: a.attacker, troops: a.troops });
                assert(held.push(a@).map_values(f) =~= held.map_values(f).push(f(a@)));
            }
        }
        proof {
            crate::lists::lemma_take_all(self@.attacks);
        }
        attacks
    }

    /// The troops of all attacks on a player, scaled.
    pub fn incoming_land_troops(&self, sid: u16) -> (sum: i128)
        requires
            self@.wf(),
        ensures
            sum == troop_sum(self@.incoming(sid, false)),
            -(MAX_ATTACK * 0xffff_ffff_ffff_ffff) <= sum <= MAX_ATTACK * 0xffff_ffff_ffff_ffff,
    {
        let attacks = self.incoming_attacks(sid, false);
        let sum = total_troops(&attacks);
        assert(attacks.len() <= 0xffff_ffff_ffff_ffff);
        sum
    }

    /// The troops of all attacks by a player, scaled.
    pub fn outgoing_attack_troops(&self, sid: u16) -> (sum: i128)
        requires
            self@.wf(),
        ensures
            sum == troop_sum(self@.outgoing(sid)),
            -(MAX_ATTACK * 0xffff_ffff_ffff_ffff) <= sum <= MAX_ATTACK * 0xffff_ffff_ffff_ffff,
    {
        let ghost p = |a: LandAttackView| a.attacker == sid;
        let ghost f = |a: LandAttackView| info(a);
        let mut attacks: Vec<AttackInfo> = Vec::new();
        assert(self@.attacks.take(0).filter(p).map_values(f) =~= Seq::empty()) by {
            reveal(Seq::filter);
        }
        for i in 0..self.attacks.len()
            invariant
                self@.wf(),
                p == (|a: LandAttackView| a.attacker == sid),
                f == (|a: LandAttackView| info(a)),
                attacks@ == self@.attacks.take(i as int).filter(p).map_values(f),
                attacks@.len() <= i,
                forall|k: int|
                    0 <= k < attacks@.len() ==> -MAX_ATTACK <= (#[trigger] attacks@[k]).troops
                    <= MAX_ATTACK,
        {
            proof {
                crate::lists::lemma_filter_step(self@.attacks, p, i as int);
                assert(self@.attacks[i as int].wf());
            }
            let ghost held = self@.attacks.take(i as int).filter(p);
            let a: &LandAttack = &self.attacks[i];
            if a.attacker == sid {
                attacks.push(AttackInfo { attacker_small_id: a.attacker, troops: a.troops });
                assert(held.push(a@).map_values(f) =~= held.map_values(f).push(f(a@)));
            }
        }
        proof {
            crate::lists::lemma_take_all(self@.attacks);
        }
        let sum = total_troops(&attacks);
        assert(attacks.len() <= 0xffff_ffff_ffff_ffff);
        sum
    }

    /// The player with the largest attack on `sid`.
    pub fn find_incoming_land_attacker(&self, sid: u16) -> (attacker: Option<u16>)
        requires
            self@.wf(),
        ensures
            attacker == self@.main_attacker(sid),
    {
        let attacks = self.incoming_attacks(sid, false);
        let is_bot = self.is_of_type(sid, PlayerType::Bot);
        let ghost p = |a: AttackInfo|
            self@.of_type(sid, PlayerType::Bot) || !self@.of_type(
                a.attacker_small_id,
                PlayerType::Bot,
            );
        let mut best: Option<AttackInfo> = None;
        let mut bar: i64 = 0;
        assert(attacks@.take(0).filter(p) =~= Seq::empty()) by {
            reveal(Seq::filter);
        }
        for i in 0..attacks.len()
            invariant
                is_bot == self@.of_type(sid, PlayerType::Bot),
                p == (|a: AttackInfo|
                    self@.of_type(sid, PlayerType::Bot) || !self@.of_type(
                        a.attacker_small_id,
                        PlayerType::Bot,
                    )),
                best == largest_attacker(attacks@.take(i as int).filter(p)),
                bar == (match best {
                    Some(a) => a.troops,
                    None => 0,
                }),
        {
            let a: AttackInfo = attacks[i];
            proof {
                crate::lists::lemma_filter_step(attacks@, p, i as int);
            }
            let ghost held = attacks@.take(i as int).filter(p);
            if is_bot || !self.is_of_type(a.attacker_small_id, PlayerType::Bot) {
                assert(held.push(a).drop_last() =~= held);
                assert(held.push(a).last() == a);
                if a.troops > bar {
                    best = Some(a);
                    bar = a.troops;
                }
            }
        }
        proof {
            crate::lists::lemma_take_all(attacks@);
        }
        match best {
            Some(a) => Some(a.attacker_small_id),
            None => None,
        }
    }

    /// Takes up to `amount` scaled troops from a player, in whole troops; returns how many.
    pub fn remove_troops(&mut self, sid: u16, amount: i64) -> (removed: i64)
        requires
            old(self).wf(),
        ensures
            final(self).wf(),
            final(self)@ == old(self)@.losing(sid, amount as int),
            removed == old(self)@.losable(sid, amount as int),
            0 <= removed <= MAX_TROOPS,
    {
        let held: i64 = self.troops_of(sid);
        let asked: i64 = if amount <= 0 {
            0
        } else {
            amount / TROOP_SCALE
        };
        let removed: i64 = if asked < held {
            asked
        } else {
            held
        };
        if sid >= 1 && sid as usize <= self.players.len() {
            assert(self@.players[sid - 1].wf());
            self.players[sid as usize - 1].troops = held - removed;
        }
        removed
    }

    /// Changes a player's troops by `amount`, scaled.
    pub fn add_troops(&mut self, sid: u16, amount: i64)
        requires
            old(self).wf(),
            amount > i64::MIN,
        ensures
            final(self).wf(),
            final(self)@ == old(self)@.reinforcing(sid, amount as int),
    {
        if amount < 0 {
            self.remove_troops(sid, -amount);
            return;
        }
        let held: i64 = self.troops_of(sid);
        if sid >= 1 && sid as usize <= self.players.len() {
            assert(self@.players[sid - 1].wf());
            let sum: i64 = held + amount / TROOP_SCALE;
            self.players[sid as usize - 1].troops = if sum > MAX_TROOPS {
                MAX_TROOPS
            } else {
                sum
            };
        }
    }

    /// Gives a player gold, or takes it where `amount` is negative.
    pub fn add_gold(&mut self, sid: u16, amount: i64)
        requires
            old(self).wf(),
        ensures
            final(self).wf(),
            final(self)@ == old(self)@.enriching(sid, amount as int),
    {
        let held: i64 = self.gold_of(sid);
        if sid >= 1 && sid as usize <= self.players.len() {
            assert(self@.players[sid - 1].wf());
            self.players[sid as usize - 1].gold = if amount > 0 && held > MAX_GOLD - amount {
                MAX_GOLD
            } else if held + amount < 0 {
                0
            } else {
                held + amount
            };
        }
    }

    /// Takes up to `amount` gold from a player; returns how much.
    pub fn remove_gold(&mut self, sid: u16, amount: i64) -> (removed: i64)
        requires
            old(self).wf(),
        ensures
            final(self).wf(),
            removed == (if amount <= 0 {
                0
            } else if amount < old(self)@.gold(sid) {
                amount as int
            } else {
                old(self)@.gold(sid)
            }),
            0 <= removed <= MAX_GOLD,
            final(self)@ == old(self)@.enriching(sid, -removed),
    {
        let held: i64 = self.gold_of(sid);
        let removed: i64 = if amount <= 0 {
            0
        } else if amount < held {
            amount
        } else {
            held
        };
        self.add_gold(sid, -removed);
        removed
    }

    /// Orders an attack over land with `troops` scaled troops, on nobody's land where no
    /// target is given.
    pub fn add_land_attack(&mut self, sid: u16, target: Option<String>, troops: i64)
        requires
            old(self).wf(),
        ensures
            final(self).wf(),
            final(self)@ == old(self)@.attacking(sid, crate::orders::text(target), troops as int),
    {
        let attack = AttackExecution::new(sid, target, Some(troops));
        self.add_execution(ExecEnum::Attack(attack));
    }

    /// Orders an attack by boat with `troops` scaled troops.
    pub fn add_transport_attack(&mut self, sid: u16, dst: TileRef, troops: i64)
        requires
            old(self).wf(),
        ensures
            final(self).wf(),
            final(self)@ == old(self)@.shipping(sid, dst, troops as int),
    {
        self.add_execution(ExecEnum::TransportShip(TransportShipExecution::new(sid, dst, troops)));
    }

    /// The player with this id.
    pub fn player_by_id(&self, id: &String) -> (player: Option<&Player>)
        requires
            self@.wf(),
        ensures
            player == (match self@.by_id(id@) {
                Some(p) => Some(&p),
                None => None,
            }),
            player is Some ==> self@.has(player->0.small_id) && self@.player(player->0.small_id)
                == *player->0,
    {
        let ghost p = |x: Player| x.id@ == id@;
        proof {
            crate::lists::lemma_take_all(self.players@);
            self@.lemma_found(p);
        }
        for i in 0..self.players.len()
            invariant
                self@.wf(),
                p == (|x: Player| x.id@ == id@),
                crate::lists::first_where(self.players@, p) == crate::lists::first_where(
                    self.players@.skip(i as int),
                    p,
                ),
                crate::lists::first_where(self.players@, p) is Some ==> self@.has(
                    crate::lists::first_where(self.players@, p)->0.small_id,
                ) && self@.player(crate::lists::first_where(self.players@, p)->0.small_id)
                    == crate::lists::first_where(self.players@, p)->0,
        {
            if self.players[i].id == *id {
                proof {
                    crate::lists::lemma_first_where_found(self.players@, p, i as int);
                }
                return Some(&self.players[i]);
            }
            proof {
                crate::lists::lemma_first_where_step(self.players@, p, i as int);
            }
        }
        None
    }

    pub fn has_player(&self, id: &String) -> (known: bool)
        requires
            self@.wf(),
        ensures
            known == (self@.by_id(id@) is Some),
    {
        match self.player_by_id(id) {
            Some(_) => true,
            None => false,
        }
    }

    /// The player of this client.
    pub fn player_by_client_id(&self, client: &String) -> (player: Option<&Player>)
        requires
            self@.wf(),
        ensures
            player == (match self@.by_client(client@) {
                Some(p) => Some(&p),
                None => None,
            }),
            player is Some ==> self@.has(player->0.small_id) && self@.player(player->0.small_id)
                == *player->0,
    {
        let ghost p = |x: Player| x.client_id@ == client@;
        proof {
            crate::lists::lemma_take_all(self.players@);
            self@.lemma_found(p);
        }
        for i in 0..self.players.len()
            invariant
                self@.wf(),
                p == (|x: Player| x.client_id@ == client@),
                crate::lists::first_where(self.players@, p) == crate::lists::first_where(
                    self.players@.skip(i as int),
                    p,
                ),
                crate::lists::first_where(self.players@, p) is Some ==> self@.has(
                    crate::lists::first_where(self.players@, p)->0.small_id,
                ) && self@.player(crate::lists::first_where(self.players@, p)->0.small_id)
                    == crate::lists::first_where(self.players@, p)->0,
        {
            if self.players[i].client_id == *client {
                proof {
                    crate::lists::lemma_first_where_found(self.players@, p, i as int);
                }
                return Some(&self.players[i]);
            }
            proof {
                crate::lists::lemma_first_where_step(self.players@, p, i as int);
            }
        }
        None
    }
}

} // verus!
