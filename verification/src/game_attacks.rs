//! The land attacks that are under way in a game.

use vstd::prelude::*;

use crate::game::{Game, GameView};
use crate::state::{LandAttack, LandAttackView, Player, PlayerType, MAX_ATTACK};

verus! {

/// The part of each of its troops that a bot sends, in scaled troops.
pub const BOT_ATTACK_SHARE: i64 = 5_000;

/// The part of each of its troops that another player sends, in scaled troops.
pub const ATTACK_SHARE: i64 = 20_000;

/// What is left of attacks and of one that met those in its way.
#[verifier::ext_equal]
pub struct Clash {
    pub attacks: Seq<LandAttackView>,
    pub troops: int,
    pub goes_on: bool,
}

/// An attack from `owner` on `target` with so many troops meets the attacks from there: each
/// side loses as many troops as the other has, and who has none left is gone.
pub open spec fn clash(attacks: Seq<LandAttackView>, owner: u16, target: u16, troops: int) -> Clash
    decreases attacks.len(),
{
    if attacks.len() == 0 {
        Clash { attacks, troops, goes_on: true }
    } else {
        let a = attacks[0];
        if a.attacker == target && a.target == owner {
            if a.troops > troops {
                Clash {
                    attacks: seq![LandAttackView { troops: swelled(a.troops as int, -troops) as i64, ..a }]
                        + attacks.skip(1),
                    troops,
                    goes_on: false,
                }
            } else {
                clash(attacks.skip(1), owner, target, swelled(troops, -a.troops))
            }
        } else {
            let rest = clash(attacks.skip(1), owner, target, troops);
            Clash { attacks: seq![a] + rest.attacks, ..rest }
        }
    }
}

/// Whether an attack joins a new one of its owner on the same target.
pub open spec fn joins_attack(a: LandAttackView, owner: u16, target: u16, id: Seq<char>) -> bool {
    a.attacker == owner && a.target == target && a.id != id && !a.from_sea
}

/// Troops with some more, as many as an attack can have.
pub open spec fn swelled(troops: int, more: int) -> int {
    if troops + more > MAX_ATTACK {
        MAX_ATTACK as int
    } else if troops + more < -MAX_ATTACK {
        -MAX_ATTACK as int
    } else {
        troops + more
    }
}

/// Troops with some more, as many as an attack can have.
pub fn swell(troops: i64, more: i64) -> (sum: i64)
    ensures
        sum == swelled(troops as int, more as int),
        -MAX_ATTACK <= sum <= MAX_ATTACK,
{
    let sum: i128 = troops as i128 + more as i128;
    if sum > MAX_ATTACK as i128 {
        MAX_ATTACK
    } else if sum < -MAX_ATTACK as i128 {
        -MAX_ATTACK
    } else {
        sum as i64
    }
}

/// What is left of attacks after those of an owner on the same target joined a new one, and
/// its troops then.
pub open spec fn merged(
    attacks: Seq<LandAttackView>,
    owner: u16,
    target: u16,
    id: Seq<char>,
    troops: int,
) -> (Seq<LandAttackView>, int)
    decreases attacks.len(),
{
    if attacks.len() == 0 {
        (attacks, troops)
    } else if joins_attack(attacks[0], owner, target, id) {
        merged(
            attacks.skip(1),
            owner,
            target,
            id,
            swelled(troops, attacks[0].troops as int),
        )
    } else {
        let (rest, sum) = merged(attacks.skip(1), owner, target, id, troops);
        (seq![attacks[0]] + rest, sum)
    }
}

pub open spec fn is_attack(owner: u16, id: Seq<char>) -> spec_fn(LandAttackView) -> bool {
    |a: LandAttackView| a.attacker == owner && a.id == id
}

pub open spec fn is_other_attack(owner: u16, id: Seq<char>) -> spec_fn(LandAttackView) -> bool {
    |a: LandAttackView| !(a.attacker == owner && a.id == id)
}

/// Sets the troops of an attack.
pub open spec fn manned(owner: u16, id: Seq<char>, troops: int) -> spec_fn(LandAttackView) -> LandAttackView {
    |a: LandAttackView|
        if a.attacker == owner && a.id == id {
            LandAttackView { troops: troops as i64, ..a }
        } else {
            a
        }
}

impl GameView {
    /// The attack of an owner with an id.
    pub open spec fn attack_of(self, owner: u16, id: Seq<char>) -> Option<LandAttackView> {
        crate::lists::first_where(self.attacks, is_attack(owner, id))
    }

    /// The game without an attack.
    pub open spec fn ending_attack(self, owner: u16, id: Seq<char>) -> GameView {
        GameView { attacks: self.attacks.filter(is_other_attack(owner, id)), ..self }
    }

    /// The game after the troops of an attack changed.
    pub open spec fn manning(self, owner: u16, id: Seq<char>, troops: int) -> GameView {
        GameView { attacks: self.attacks.map_values(manned(owner, id, troops)), ..self }
    }

    /// Whether a player may attack another: it is no friend, and humans spare each other
    /// while spawned players are immune.
    pub open spec fn may_attack(self, a: u16, b: u16) -> bool {
        !self.is_friendly(a, b) && !(self.spawn_immunity && self.of_type(a, PlayerType::Human)
            && self.of_type(b, PlayerType::Human))
    }

    /// The troops that a player sends where it does not say how many, scaled: bots one in
    /// twenty, others one in five.
    pub open spec fn usual_attack(self, sid: u16) -> int {
        self.troops(sid) * (if self.of_type(sid, PlayerType::Bot) {
            BOT_ATTACK_SHARE
        } else {
            ATTACK_SHARE
        })
    }

    /// The game after the troops that a player ever sent were counted.
    pub open spec fn counting_sent(self, sid: u16, amount: int) -> GameView {
        if self.has(sid) {
            let sum = self.player(sid).attacks_sent + amount;
            self.with_player(
                sid,
                Player {
                    attacks_sent: if sum > i64::MAX {
                        i64::MAX
                    } else if sum < i64::MIN {
                        i64::MIN
                    } else {
                        sum as i64
                    },
                    ..self.player(sid)
                },
            )
        } else {
            self
        }
    }

    /// The game after a player drew the id of its next attack.
    pub open spec fn drawing_attack_id(self, sid: u16) -> GameView {
        if self.has(sid) {
            let p = self.player(sid);
            self.with_player(
                sid,
                Player {
                    id_prng: crate::prng::PseudoRandom {
                        state: crate::prng::state_after(
                            p.id_prng.state,
                            crate::prng::ID_LENGTH as nat,
                        ),
                    },
                    ..p
                },
            )
        } else {
            self
        }
    }

    /// The id of a player's next attack.
    pub open spec fn next_attack_id(self, sid: u16) -> Seq<char> {
        crate::prng::id_drawn(self.player(sid).id_prng.state, crate::prng::ID_LENGTH as nat)
    }
}

proof fn lemma_clash(attacks: Seq<LandAttackView>, owner: u16, target: u16, troops: int)
    requires
        -MAX_ATTACK <= troops <= MAX_ATTACK,
        forall|i: int| 0 <= i < attacks.len() ==> (#[trigger] attacks[i]).wf(),
    ensures
        -MAX_ATTACK <= clash(attacks, owner, target, troops).troops <= MAX_ATTACK,
        forall|i: int|
            0 <= i < clash(attacks, owner, target, troops).attacks.len() ==> (#[trigger] clash(
                attacks,
                owner,
                target,
                troops,
            ).attacks[i]).wf(),
    decreases attacks.len(),
{
    if attacks.len() > 0 {
        let a = attacks[0];
        assert(a.wf());
        assert forall|i: int| 0 <= i < attacks.skip(1).len() implies (#[trigger] attacks.skip(
            1,
        )[i]).wf() by {
            assert(attacks.skip(1)[i] == attacks[i + 1]);
        }
        if a.attacker == target && a.target == owner {
            if a.troops <= troops {
                lemma_clash(attacks.skip(1), owner, target, swelled(troops, -a.troops));
            }
        } else {
            lemma_clash(attacks.skip(1), owner, target, troops);
        }
    }
}

proof fn lemma_merged(attacks: Seq<LandAttackView>, owner: u16, target: u16, id: Seq<char>, troops: int)
    requires
        -MAX_ATTACK <= troops <= MAX_ATTACK,
        forall|i: int| 0 <= i < attacks.len() ==> (#[trigger] attacks[i]).wf(),
    ensures
        -MAX_ATTACK <= merged(attacks, owner, target, id, troops).1 <= MAX_ATTACK,
        forall|i: int|
            0 <= i < merged(attacks, owner, target, id, troops).0.len() ==> (#[trigger] merged(
                attacks,
                owner,
                target,
                id,
                troops,
            ).0[i]).wf(),
    decreases attacks.len(),
{
    if attacks.len() > 0 {
        assert(attacks[0].wf());
        assert forall|i: int| 0 <= i < attacks.skip(1).len() implies (#[trigger] attacks.skip(
            1,
        )[i]).wf() by {
            assert(attacks.skip(1)[i] == attacks[i + 1]);
        }
        if joins_attack(attacks[0], owner, target, id) {
            lemma_merged(
                attacks.skip(1),
                owner,
                target,
                id,
                swelled(troops, attacks[0].troops as int),
            );
        } else {
            lemma_merged(attacks.skip(1), owner, target, id, troops);
        }
    }
}

impl Game {
    /// Whether a player may attack another.
    pub fn can_attack_player(&self, a: u16, b: u16) -> (may: bool)
        ensures
            may == self@.may_attack(a, b),
    {
        !self.is_friendly(a, b) && !(self.spawn_immunity && self.is_of_type(a, PlayerType::Human)
            && self.is_of_type(b, PlayerType::Human))
    }

    /// The troops that a player sends where it does not say how many.
    pub fn attack_amount(&self, sid: u16) -> (troops: i64)
        requires
            self@.wf(),
        ensures
            troops == self@.usual_attack(sid),
            -MAX_ATTACK <= troops <= MAX_ATTACK,
    {
        if self.is_of_type(sid, PlayerType::Bot) {
            self.troops_of(sid) * BOT_ATTACK_SHARE
        } else {
            self.troops_of(sid) * ATTACK_SHARE
        }
    }

    /// Counts the troops that a player ever sent.
    pub fn adjust_attacks_sent(&mut self, sid: u16, amount: i64)
        requires
            old(self).wf(),
        ensures
            final(self).wf(),
            final(self)@ == old(self)@.counting_sent(sid, amount as int),
    {
        if sid >= 1 && sid as usize <= self.players.len() {
            let sum: i128 = self.players[sid as usize - 1].attacks_sent as i128 + amount as i128;
            self.players[sid as usize - 1].attacks_sent = if sum > i64::MAX as i128 {
                i64::MAX
            } else if sum < i64::MIN as i128 {
                i64::MIN
            } else {
                sum as i64
            };
        }
    }

    /// Draws the id of a player's next attack.
    pub fn draw_attack_id(&mut self, sid: u16) -> (id: String)
        requires
            old(self).wf(),
            old(self)@.has(sid),
        ensures
            final(self).wf(),
            final(self)@ == old(self)@.drawing_attack_id(sid),
            id@ == old(self)@.next_attack_id(sid),
    {
        let mut random: crate::prng::PseudoRandom = self.players[sid as usize - 1].id_prng;
        let id: String = random.next_id();
        self.players[sid as usize - 1].id_prng = random;
        id
    }

    /// Adds an attack to those under way.
    pub fn register_land_attack(&mut self, attack: LandAttack)
        requires
            old(self).wf(),
            attack@.wf(),
        ensures
            final(self).wf(),
            final(self)@ == (GameView {
                attacks: old(self)@.attacks.push(attack@),
                ..old(self)@
            }),
    {
        let ghost before = self@.attacks;
        self.attacks.push(attack);
        assert(self@.attacks =~= before.push(attack@));
    }

    fn attack_index(&self, owner: u16, id: &String) -> (at: Option<usize>)
        ensures
            at is Some == self@.attack_of(owner, id@) is Some,
            at is Some ==> at->0 < self@.attacks.len() && self@.attacks[at->0 as int]
                == self@.attack_of(owner, id@)->0,
    {
        let ghost p = is_attack(owner, id@);
        proof {
            crate::lists::lemma_take_all(self@.attacks);
        }
        for i in 0..self.attacks.len()
            invariant
                p == is_attack(owner, id@),
                crate::lists::first_where(self@.attacks, p) == crate::lists::first_where(
                    self@.attacks.skip(i as int),
                    p,
                ),
        {
            if self.attacks[i].attacker == owner && self.attacks[i].id == *id {
                proof {
                    crate::lists::lemma_first_where_found(self@.attacks, p, i as int);
                }
                return Some(i);
            }
            proof {
                crate::lists::lemma_first_where_step(self@.attacks, p, i as int);
            }
        }
        None
    }

    /// The troops of an attack, and whether it is to come back and has done so.
    pub fn attack_state(&self, owner: u16, id: &String) -> (state: Option<(i64, bool, bool)>)
        requires
            self@.wf(),
        ensures
            state is Some == self@.attack_of(owner, id@) is Some,
            state is Some ==> (state->0).0 == self@.attack_of(owner, id@)->0.troops && (
            state->0).1 == self@.attack_of(owner, id@)->0.retreating && (state->0).2
                == self@.attack_of(owner, id@)->0.retreated && -MAX_ATTACK <= (state->0).0 <= MAX_ATTACK,
    {
        match self.attack_index(owner, id) {
            Some(i) => {
                assert(self@.attacks[i as int].wf());
                Some((self.attacks[i].troops, self.attacks[i].retreating, self.attacks[i].retreated))
            },
            None => None,
        }
    }

    /// Ends an attack.
    pub fn unregister_land_attack(&mut self, owner: u16, id: &String)
        requires
            old(self).wf(),
        ensures
            final(self).wf(),
            final(self)@ == old(self)@.ending_attack(owner, id@),
    {
        let n: usize = self.attacks.len();
        let ghost before = self@;
        let ghost p = is_other_attack(owner, id@);
        let mut at: usize = 0;
        assert(before.attacks.take(0).filter(p) =~= Seq::empty()) by {
            reveal(Seq::filter);
        }
        assert(before.attacks.take(0).filter(p) + before.attacks.skip(0) =~= before.attacks);
        for k in 0..n
            invariant
                n == before.attacks.len(),
                before.wf(),
                p == is_other_attack(owner, id@),
                self@ == (GameView { attacks: self@.attacks, ..before }),
                self.wf(),
                self@.attacks == before.attacks.take(k as int).filter(p) + before.attacks.skip(
                    k as int,
                ),
                at == before.attacks.take(k as int).filter(p).len(),
        {
            let ghost kept = before.attacks.take(k as int).filter(p);
            proof {
                crate::lists::lemma_filter_step(before.attacks, p, k as int);
            }
            assert(self@.attacks.len() == kept.len() + (n - k));
            assert(self.attacks@.len() == self@.attacks.len());
            assert(self@.attacks[at as int] == before.attacks[k as int]);
            assert(before.attacks.skip(k as int).skip(1) =~= before.attacks.skip(k + 1));
            if self.attacks[at].attacker == owner && self.attacks[at].id == *id {
                let ghost now = self@.attacks;
                self.attacks.remove(at);
                assert(self@.attacks =~= now.remove(at as int));
                assert(now.remove(at as int) =~= kept + before.attacks.skip(k + 1));
            } else {
                assert(self@.attacks =~= kept.push(before.attacks[k as int]) + before.attacks.skip(
                    k + 1,
                ));
                at = at + 1;
            }
            assert forall|j: int| 0 <= j < self@.attacks.len() implies (#[trigger]
            self@.attacks[j]).wf() by {
                let whole = before.attacks.take(k + 1).filter(p) + before.attacks.skip(k + 1);
                assert(self@.attacks[j] == whole[j]);
                crate::lists::lemma_filter_holds(before.attacks.take(k + 1), p);
                if j < before.attacks.take(k + 1).filter(p).len() {
                    assert(before.attacks.take(k + 1).filter(p).contains(whole[j]));
                    assert(before.attacks.take(k + 1).contains(whole[j]));
                } else {
                    let i = j - before.attacks.take(k + 1).filter(p).len() + k + 1;
                    assert(whole[j] == before.attacks[i]);
                }
            }
        }
        proof {
            crate::lists::lemma_take_all(before.attacks);
            assert(before.attacks.filter(p) + before.attacks.skip(n as int)
                =~= before.attacks.filter(p));
        }
    }

    /// Sets the troops of an attack.
    pub fn set_attack_troops(&mut self, owner: u16, id: &String, troops: i64)
        requires
            old(self).wf(),
            -MAX_ATTACK <= troops <= MAX_ATTACK,
        ensures
            final(self).wf(),
            final(self)@ == old(self)@.manning(owner, id@, troops as int),
    {
        let n: usize = self.attacks.len();
        let ghost before = self@;
        let ghost f = manned(owner, id@, troops as int);
        for i in 0..n
            invariant
                n == self@.attacks.len(),
                n == before.attacks.len(),
                f == manned(owner, id@, troops as int),
                -MAX_ATTACK <= troops <= MAX_ATTACK,
                forall|k: int| 0 <= k < i ==> self@.attacks[k] == f(#[trigger] before.attacks[k]),
                forall|k: int| i <= k < n ==> self@.attacks[k] == before.attacks[k],
                self@ == (GameView { attacks: self@.attacks, ..before }),
                self.wf(),
                before.wf(),
        {
            if self.attacks[i].attacker == owner && self.attacks[i].id == *id {
                self.attacks[i].troops = troops;
            }
            assert(self@.attacks[i as int] == f(before.attacks[i as int]));
            assert forall|k: int| 0 <= k < n implies (#[trigger] self@.attacks[k]).wf() by {
                assert(before.attacks[k].wf());
            }
        }
        assert(self@.attacks =~= before.attacks.map_values(f));
    }

    /// Lets a new attack of `owner` meet the attacks of `target` in its way.
    pub fn cancel_opposing_land_attacks(&mut self, owner: u16, target: u16, troops: i64) -> (left: (
        i64,
        bool,
    ))
        requires
            old(self).wf(),
            -MAX_ATTACK <= troops <= MAX_ATTACK,
        ensures
            final(self).wf(),
            ({
                let met = clash(old(self)@.attacks, owner, target, troops as int);
                &&& final(self)@ == (GameView { attacks: met.attacks, ..old(self)@ })
                &&& left.0 == met.troops
                &&& left.1 == met.goes_on
            }),
            -MAX_ATTACK <= left.0 <= MAX_ATTACK,
    {
        let ghost before = self@;
        let ghost goal = clash(before.attacks, owner, target, troops as int);
        proof {
            lemma_clash(before.attacks, owner, target, troops as int);
            crate::lists::lemma_take_all(before.attacks);
        }
        let mut rest: i64 = troops;
        let mut i: usize = 0;
        assert(before.attacks.take(0) + goal.attacks =~= goal.attacks);
        while i < self.attacks.len()
            invariant
                i <= self@.attacks.len(),
                before.wf(),
                -MAX_ATTACK <= rest <= MAX_ATTACK,
                self@ == (GameView { attacks: self@.attacks, ..before }),
                self.wf(),
                forall|k: int| 0 <= k < goal.attacks.len() ==> (#[trigger] goal.attacks[k]).wf(),
                ({
                    let met = clash(self@.attacks.skip(i as int), owner, target, rest as int);
                    goal.attacks == self@.attacks.take(i as int) + met.attacks && goal.troops
                        == met.troops && goal.goes_on == met.goes_on
                }),
                goal == clash(before.attacks, owner, target, troops as int),
                before == old(self)@,
            decreases self@.attacks.len() - i,
        {
            let ghost now = self@.attacks;
            let ghost game_then = self@;
            assert(now.skip(i as int)[0] == now[i as int]);
            assert(now.skip(i as int).skip(1) =~= now.skip(i + 1));
            assert(now[i as int].wf()) by {
                assert(self@.attacks[i as int].wf());
            }
            if self.attacks[i].attacker == target && self.attacks[i].target == owner {
                let theirs: i64 = self.attacks[i].troops;
                if theirs > rest {
                    self.attacks[i].troops = swell(theirs, -rest);
                    assert(self@.attacks =~= goal.attacks);
                    return (rest, false);
                }
                self.attacks.remove(i);
                assert(self@.attacks =~= now.remove(i as int));
                rest = swell(rest, -theirs);
                assert(self@.attacks.skip(i as int) =~= now.skip(i + 1));
                assert(self@.attacks.take(i as int) =~= now.take(i as int));
                assert forall|k: int| 0 <= k < self@.attacks.len() implies (#[trigger]
                self@.attacks[k]).wf() by {
                    if k < i {
                        assert(game_then.attacks[k].wf());
                    } else {
                        assert(game_then.attacks[k + 1].wf());
                    }
                }
            } else {
                let ghost met = clash(now.skip(i + 1), owner, target, rest as int);
                assert(now.take(i as int) + (seq![now[i as int]] + met.attacks) =~= now.take(i + 1)
                    + met.attacks);
                i = i + 1;
            }
        }
        assert(self@.attacks.skip(i as int) =~= Seq::empty());
        assert(self@.attacks.take(i as int) + Seq::<LandAttackView>::empty() =~= self@.attacks);
        (rest, true)
    }

    /// Lets the land attacks of `owner` on `target` join a new one.
    pub fn merge_outgoing_land_attacks(&mut self, owner: u16, target: u16, id: &String, troops: i64) -> (
        sum: i64)
        requires
            old(self).wf(),
            -MAX_ATTACK <= troops <= MAX_ATTACK,
        ensures
            final(self).wf(),
            ({
                let (attacks, all) = merged(
                    old(self)@.attacks,
                    owner,
                    target,
                    id@,
                    troops as int,
                );
                final(self)@ == (GameView { attacks, ..old(self)@ }) && sum == all
            }),
            -MAX_ATTACK <= sum <= MAX_ATTACK,
    {
        let ghost before = self@;
        let ghost goal = merged(before.attacks, owner, target, id@, troops as int);
        proof {
            lemma_merged(before.attacks, owner, target, id@, troops as int);
            crate::lists::lemma_take_all(before.attacks);
        }
        let mut sum: i64 = troops;
        let mut i: usize = 0;
        assert(before.attacks.take(0) + goal.0 =~= goal.0);
        while i < self.attacks.len()
            invariant
                i <= self@.attacks.len(),
                before.wf(),
                -MAX_ATTACK <= sum <= MAX_ATTACK,
                self@ == (GameView { attacks: self@.attacks, ..before }),
                self.wf(),
                ({
                    let (rest, all) = merged(
                        self@.attacks.skip(i as int),
                        owner,
                        target,
                        id@,
                        sum as int,
                    );
                    goal.0 == self@.attacks.take(i as int) + rest && goal.1 == all
                }),
            decreases self@.attacks.len() - i,
        {
            let ghost now = self@.attacks;
            let ghost game_then = self@;
            assert(now.skip(i as int)[0] == now[i as int]);
            assert(now.skip(i as int).skip(1) =~= now.skip(i + 1));
            assert(now[i as int].wf()) by {
                assert(self@.attacks[i as int].wf());
            }
            if self.attacks[i].attacker == owner && self.attacks[i].target == target
                && self.attacks[i].id != *id && !self.attacks[i].from_sea {
                let more: i64 = self.attacks[i].troops;
                sum = swell(sum, more);
                self.attacks.remove(i);
                assert(self@.attacks =~= now.remove(i as int));
                assert(self@.attacks.skip(i as int) =~= now.skip(i + 1));
                assert(self@.attacks.take(i as int) =~= now.take(i as int));
                assert forall|k: int| 0 <= k < self@.attacks.len() implies (#[trigger]
                self@.attacks[k]).wf() by {
                    if k < i {
                        assert(game_then.attacks[k].wf());
                    } else {
                        assert(game_then.attacks[k + 1].wf());
                    }
                }
            } else {
                let ghost rest = merged(now.skip(i + 1), owner, target, id@, sum as int).0;
                assert(now.take(i as int) + (seq![now[i as int]] + rest) =~= now.take(i + 1) + rest);
                i = i + 1;
            }
        }
        assert(self@.attacks.skip(i as int) =~= Seq::empty());
        assert(self@.attacks.take(i as int) + Seq::<LandAttackView>::empty() =~= self@.attacks);
        sum
    }
}

} // verus!
