//! What a nuke does to the map, to players and to units.

use vstd::prelude::*;

use crate::config::{Config, NukeMagnitude, TROOP_SCALE};
use crate::game::{Game, GameView};
use crate::map::{GameMap, MapView, Tile};
use crate::ordered_tiles::{OrderedTiles, TileRef};
use crate::prng::PseudoRandom;
use crate::state::{AllianceRequestStatus, LandAttackView, Player, TransportKill, Unit};
use crate::unit_type::UnitType;

verus! {

impl MapView {
    /// `n` tiles of a row, from the one at `x0`.
    pub open spec fn row(self, x0: int, y: int, n: nat) -> Seq<TileRef> {
        Seq::new(n, |i: int| self.at(x0 + i, y))
    }

    /// `m` rows of `n` tiles, from the one at `x0` and `y0`.
    pub open spec fn block(self, x0: int, y0: int, n: nat, m: nat) -> Seq<TileRef>
        decreases m,
    {
        if m == 0 {
            Seq::empty()
        } else {
            self.block(x0, y0, n, (m - 1) as nat) + self.row(x0, y0 + m - 1, n)
        }
    }

    /// Whether two maps have the same size.
    pub open spec fn same_size(self, other: MapView) -> bool {
        self.width == other.width && self.height == other.height && self.tiles.len()
            == other.tiles.len()
    }

    proof fn lemma_block_len(self, x0: int, y0: int, n: nat, m: nat)
        ensures
            self.block(x0, y0, n, m).len() == n * m,
        decreases m,
    {
        if m > 0 {
            self.lemma_block_len(x0, y0, n, (m - 1) as nat);
            assert(n * m == n * (m - 1) + n) by (nonlinear_arith);
        } else {
            assert(n * m == 0) by (nonlinear_arith)
                requires
                    m == 0,
            ;
        }
    }

    /// A square has no more tiles than the map.
    pub proof fn lemma_square_len(self, t: TileRef, r: int)
        requires
            self.wf(),
            self.valid(t),
            r >= 0,
        ensures
            self.square(t, r).len() <= 0xffff_ffff,
    {
        self.lemma_xy(t);
        let x0 = low_end(self.x(t), r);
        let y0 = low_end(self.y(t), r);
        let n = (high_end(self.x(t), r, self.width as int) - x0 + 1) as nat;
        let m = (high_end(self.y(t), r, self.height as int) - y0 + 1) as nat;
        self.lemma_block_len(x0, y0, n, m);
        assert(n * m <= 65535 * 65535) by (nonlinear_arith)
            requires
                n <= 65535,
                m <= 65535,
        ;
    }

    /// The tiles whose row and column are at most `r` away from those of `t`, row by row.
    pub open spec fn square(self, t: TileRef, r: int) -> Seq<TileRef> {
        let x0 = low_end(self.x(t), r);
        let y0 = low_end(self.y(t), r);
        self.block(
            x0,
            y0,
            (high_end(self.x(t), r, self.width as int) - x0 + 1) as nat,
            (high_end(self.y(t), r, self.height as int) - y0 + 1) as nat,
        )
    }
}

pub open spec fn low_end(c: int, r: int) -> int {
    if c - r < 0 {
        0
    } else {
        c - r
    }
}

pub open spec fn high_end(c: int, r: int, size: int) -> int {
    if c + r > size - 1 {
        size - 1
    } else {
        c + r
    }
}

/// The tiles whose row and column are at most `r` away from those of `t`, row by row.
pub fn tiles_in_square(map: &GameMap, t: TileRef, r: u32) -> (tiles: Vec<TileRef>)
    requires
        map@.wf(),
        map@.valid(t),
    ensures
        tiles@ == map@.square(t, r as int),
        forall|i: int| 0 <= i < tiles@.len() ==> map@.valid(#[trigger] tiles@[i]),
{
    proof {
        map@.lemma_xy(t);
    }
    let x: u32 = map.x(t);
    let y: u32 = map.y(t);
    let x0: u32 = if x < r {
        0
    } else {
        x - r
    };
    let y0: u32 = if y < r {
        0
    } else {
        y - r
    };
    let x1: u32 = if r > map.width - 1 - x {
        map.width - 1
    } else {
        x + r
    };
    let y1: u32 = if r > map.height - 1 - y {
        map.height - 1
    } else {
        y + r
    };
    let n: u32 = x1 - x0 + 1;
    let m: u32 = y1 - y0 + 1;
    let mut tiles: Vec<TileRef> = Vec::new();
    for j in 0..m
        invariant
            map@.wf(),
            x0 + n <= map@.width,
            y0 + m <= map@.height,
            map@.width <= 65535,
            map@.height <= 65535,
            tiles@ == map@.block(x0 as int, y0 as int, n as nat, j as nat),
            forall|k: int| 0 <= k < tiles@.len() ==> map@.valid(#[trigger] tiles@[k]),
    {
        let ghost above = tiles@;
        for i in 0..n
            invariant
                map@.wf(),
                x0 + n <= map@.width,
                y0 + m <= map@.height,
                map@.width <= 65535,
                map@.height <= 65535,
                j < m,
                tiles@ == above + map@.row(x0 as int, y0 + j, i as nat),
                forall|k: int| 0 <= k < tiles@.len() ==> map@.valid(#[trigger] tiles@[k]),
        {
            tiles.push(map.ref_xy(x0 + i, y0 + j));
            assert(tiles@ =~= above + map@.row(x0 as int, y0 + j, (i + 1) as nat));
        }
    }
    tiles
}

/// What a tile counts when a nuke hits it: two in the inner circle, one in the outer.
pub open spec fn toll(map: MapView, dst: TileRef, reach: NukeMagnitude, t: TileRef) -> int {
    if map.dist2(dst, t) <= reach.inner * reach.inner {
        2
    } else if map.dist2(dst, t) <= reach.outer * reach.outer {
        1
    } else {
        0
    }
}

/// What the tiles of `owner` among `tiles` count together.
pub open spec fn toll_of(
    map: MapView,
    tiles: Seq<TileRef>,
    dst: TileRef,
    reach: NukeMagnitude,
    owner: u16,
) -> int
    decreases tiles.len(),
{
    if tiles.len() == 0 {
        0
    } else {
        toll_of(map, tiles.drop_last(), dst, reach, owner) + (if map.owner(tiles.last()) == owner {
            toll(map, dst, reach, tiles.last())
        } else {
            0
        })
    }
}

/// `ids` and those of `more` that are no members yet, each once.
pub open spec fn joined(ids: Seq<u16>, more: Seq<Unit>) -> Seq<u16>
    decreases more.len(),
{
    if more.len() == 0 {
        ids
    } else {
        crate::ordered_tiles::with(joined(ids, more.drop_last()), more.last().owner)
    }
}

/// Whether the fire spreads to a tile, and the random state after that. In the outer
/// circle it does half of the time.
pub open spec fn catches(
    map: MapView,
    dst: TileRef,
    reach: NukeMagnitude,
    t: TileRef,
    rng: u64,
) -> (bool, u64) {
    if map.dist2(dst, t) > reach.outer * reach.outer {
        (false, rng)
    } else if map.dist2(dst, t) <= reach.inner * reach.inner {
        (!map.is_impassable(t), rng)
    } else {
        (
            crate::prng::chance_drawn(rng, 2) && !map.is_impassable(t),
            crate::prng::next_state(rng),
        )
    }
}

/// The burning tiles after the fire tried to spread to each of `next`.
pub open spec fn caught(
    map: MapView,
    dst: TileRef,
    reach: NukeMagnitude,
    burning: Seq<TileRef>,
    next: Seq<TileRef>,
    rng: u64,
) -> (Seq<TileRef>, u64)
    decreases next.len(),
{
    if next.len() == 0 {
        (burning, rng)
    } else {
        let (held, rng) = caught(map, dst, reach, burning, next.drop_last(), rng);
        let t = next.last();
        if held.contains(t) {
            (held, rng)
        } else {
            let (catches, rng) = catches(map, dst, reach, t, rng);
            (if catches {
                held.push(t)
            } else {
                held
            }, rng)
        }
    }
}

/// The burning tiles after the fire spread from each of them in turn, from the one at
/// position `at`, `fuel` of them at most.
pub open spec fn burnt(
    map: MapView,
    dst: TileRef,
    reach: NukeMagnitude,
    burning: Seq<TileRef>,
    at: int,
    rng: u64,
    fuel: nat,
) -> Seq<TileRef>
    decreases fuel,
{
    if fuel == 0 || at >= burning.len() {
        burning
    } else {
        let (more, rng) = caught(map, dst, reach, burning, map.neighbors4(burning[at]), rng);
        burnt(map, dst, reach, more, at + 1, rng, (fuel - 1) as nat)
    }
}

/// The tiles that a nuke destroys: the fire spreads from `dst` over neighbouring tiles.
pub open spec fn crater(map: MapView, dst: TileRef, reach: NukeMagnitude, tick: u32) -> Seq<TileRef> {
    let (catches, rng) = catches(map, dst, reach, dst, crate::prng::seed_state(tick as i32));
    if catches {
        burnt(map, dst, reach, seq![dst], 0, rng, map.tiles.len())
    } else {
        Seq::empty()
    }
}

/// How many scaled troops die with one tile, out of `amount` scaled troops of a player
/// who has `left` tiles and a limit of `milli` thousandths.
pub open spec fn nuke_deaths(
    config: Config,
    nuke: UnitType,
    amount: int,
    left: int,
    milli: int,
) -> int {
    if nuke != UnitType::MirvWarhead {
        (5 * amount) / (if left < 1 {
            1
        } else {
            left
        })
    } else if milli <= 0 || config.warhead_deaths@.len() == 0 {
        0
    } else {
        let share = (10 * amount) / milli;
        config.warhead_deaths@[if share < config.warhead_deaths@.len() {
            share
        } else {
            config.warhead_deaths@.len() - 1
        }] as int
    }
}

/// What is left of `amount` scaled troops, none at least.
pub open spec fn surviving(config: Config, nuke: UnitType, amount: int, left: int, milli: int) -> int {
    let dead = nuke_deaths(config, nuke, amount, left, milli);
    if amount <= 0 || dead >= amount {
        0
    } else {
        amount - dead
    }
}

/// Missiles are not hit by the blasts of others.
pub open spec fn in_the_air(unit_type: UnitType) -> bool {
    unit_type.nuke() || unit_type == UnitType::SamMissile
}

impl MapView {
    /// Tiles that nobody owns.
    pub open spec fn unclaimed(self) -> spec_fn(TileRef) -> bool {
        |t: TileRef| self.valid(t) && self.owner(t) == 0
    }
}

impl GameView {
    /// Structures at most `r` tiles from `t`.
    pub open spec fn standing_within(self, t: TileRef, r: int) -> spec_fn(Unit) -> bool {
        |u: Unit| u.unit_type.structure() && self.map.dist2(t, u.tile) <= r * r
    }

    /// Players of whom a nuke hits more than the threshold.
    pub open spec fn heavily_hit(self, dst: TileRef, nuke: UnitType) -> spec_fn(u16) -> bool {
        |id: u16|
            toll_of(
                self.map,
                self.map.square(dst, self.config.magnitude(nuke).outer as int),
                dst,
                self.config.magnitude(nuke),
                id,
            ) > 2 * self.config.nuke_alliance_break_threshold
    }

    /// The players whose alliance a nuke would break: those who are heavily hit and those
    /// who have a structure in reach.
    pub open spec fn struck(self, dst: TileRef, nuke: UnitType) -> Seq<u16> {
        joined(
            self.ids().filter(self.heavily_hit(dst, nuke)),
            self.units.filter(
                self.standing_within(dst, self.config.magnitude(nuke).outer as int),
            ),
        )
    }

    /// The game after the requests of `targets` to `nuker` were rejected.
    pub open spec fn refusing(self, nuker: u16, targets: Seq<u16>) -> GameView
        decreases targets.len(),
    {
        if targets.len() == 0 {
            self
        } else {
            let game = self.refusing(nuker, targets.drop_last());
            if game.requested(targets.last(), nuker) {
                game.answering(targets.last(), nuker, AllianceRequestStatus::Rejected)
            } else {
                game
            }
        }
    }

    /// The game after `nuker` fell out with `targets`. A request that it made of one of
    /// them is rejected; else their alliance ends and they think the worst of it.
    pub open spec fn falling_out(self, nuker: u16, targets: Seq<u16>) -> GameView
        decreases targets.len(),
    {
        if targets.len() == 0 {
            self
        } else {
            let game = self.falling_out(nuker, targets.drop_last());
            let t = targets.last();
            if game.requested(nuker, t) {
                game.answering(nuker, t, AllianceRequestStatus::Rejected)
            } else if t != nuker {
                game.unallied(nuker, t).relating(t, nuker, -100)
            } else {
                game.unallied(nuker, t)
            }
        }
    }

    /// The game after `nuker` launched a nuke at `dst`, as far as its alliances go.
    pub open spec fn estranging(self, nuker: u16, dst: TileRef, nuke: UnitType) -> GameView {
        if nuke == UnitType::MirvWarhead {
            self
        } else {
            let targets = self.struck(dst, nuke);
            self.refusing(nuker, targets).falling_out(nuker, targets)
        }
    }

    /// The game after land burnt: it waits to become water, or gets fallout.
    pub open spec fn scorching(self, t: TileRef) -> GameView {
        if self.config.water_nukes {
            GameView { drowning: self.drowning.push(t), ..self }
        } else {
            GameView {
                map: MapView {
                    tiles: self.map.tiles.update(
                        t as int,
                        Tile { fallout: true, ..self.map.tiles[t as int] },
                    ),
                    ..self.map
                },
                ..self
            }
        }
    }

    /// The game after one tile was destroyed, and the owner who lost it.
    pub open spec fn destroying(self, t: TileRef) -> (GameView, Seq<u16>) {
        let owner = self.map.owner(t);
        let game = if owner != 0 {
            self.transferring(t, 0, false)
        } else {
            self
        };
        (if self.map.is_land(t) {
            game.scorching(t)
        } else {
            game
        }, if owner != 0 {
            seq![owner]
        } else {
            Seq::empty()
        })
    }

    /// The game after tiles were destroyed, and the owners who lost them.
    pub open spec fn razing(self, tiles: Seq<TileRef>) -> (GameView, Seq<u16>)
        decreases tiles.len(),
    {
        if tiles.len() == 0 {
            (self, Seq::empty())
        } else {
            let (game, losers) = self.razing(tiles.drop_last());
            let (after, loser) = game.destroying(tiles.last());
            (after, losers + loser)
        }
    }

    /// The game after the forces that a player has sent out lost what dies with one tile.
    pub open spec fn thinning(self, sid: u16, nuke: UnitType, left: int, milli: int) -> GameView {
        GameView {
            attacks: self.attacks.map_values(
                |a: LandAttackView|
                    if a.attacker == sid {
                        LandAttackView {
                            troops: surviving(
                                self.config,
                                nuke,
                                a.troops as int,
                                left,
                                milli,
                            ) as i64,
                            ..a
                        }
                    } else {
                        a
                    },
            ),
            units: self.units.map_values(
                |u: Unit|
                    if u.owner == sid && u.unit_type == UnitType::Transport && u.troops > 0 {
                        Unit {
                            troops: surviving(
                                self.config,
                                nuke,
                                u.troops as int,
                                left,
                                milli,
                            ) as i64,
                            ..u
                        }
                    } else {
                        u
                    },
            ),
            ..self
        }
    }

    /// The game after a player lost what dies with one tile, at home and elsewhere.
    pub open spec fn suffering(self, sid: u16, nuke: UnitType, left: int, milli: int) -> GameView {
        let dead = nuke_deaths(
            self.config,
            nuke,
            self.troops(sid) * TROOP_SCALE,
            left,
            milli,
        ) / (TROOP_SCALE as int);
        let kept = if dead >= self.troops(sid) {
            0
        } else {
            self.troops(sid) - dead
        };
        (if self.has(sid) {
            self.with_player(sid, Player { troops: kept as i64, ..self.player(sid) })
        } else {
            self
        }).thinning(sid, nuke, left, milli)
    }

    /// The game after a player suffered for the first `n` of the tiles that it lost, of
    /// `before` that it had.
    pub open spec fn mourning(self, sid: u16, nuke: UnitType, before: int, n: nat) -> GameView
        decreases n,
    {
        if n == 0 {
            self
        } else {
            self.mourning(sid, nuke, before, (n - 1) as nat).suffering(
                sid,
                nuke,
                before - (n - 1),
                self.max_troops_milli(sid),
            )
        }
    }

    /// The game after each of `victims` suffered for the tiles that it lost.
    pub open spec fn bleeding(self, nuke: UnitType, losers: Seq<u16>, victims: Seq<u16>) -> GameView
        decreases victims.len(),
    {
        if victims.len() == 0 {
            self
        } else {
            let game = self.bleeding(nuke, losers, victims.drop_last());
            let n = losers.filter(is_id(victims.last())).len();
            game.mourning(victims.last(), nuke, game.tiles_owned(victims.last()) + n, n)
        }
    }

    /// Units that a blast does not reach.
    pub open spec fn outlasting(self, dst: TileRef, outer: int) -> spec_fn(Unit) -> bool {
        |u: Unit| in_the_air(u.unit_type) || self.map.dist2(dst, u.tile) >= outer * outer
    }

    /// Transport ships in reach of a blast.
    pub open spec fn sinking(self, dst: TileRef, outer: int) -> spec_fn(Unit) -> bool {
        |u: Unit| u.unit_type == UnitType::Transport && !self.outlasting(dst, outer)(u)
    }

    /// Transport ships as they are remembered once `killer` has destroyed them.
    pub open spec fn sunk_by(killer: u16) -> spec_fn(Unit) -> TransportKill {
        |u: Unit| TransportKill { unit_id: u.id, owner: u.owner, killer, tile: u.tile }
    }

    /// The game after the units in reach of a blast of `killer` were destroyed.
    pub open spec fn sweeping(self, dst: TileRef, outer: int, killer: u16) -> GameView {
        GameView {
            units: self.units.filter(self.outlasting(dst, outer)),
            kills: self.kills + self.units.filter(self.sinking(dst, outer)).map_values(
                GameView::sunk_by(killer),
            ),
            ..self
        }
    }

    /// The game after a nuke of `killer` went off at `dst` and destroyed `tiles`.
    pub open spec fn exploding(
        self,
        nuke: UnitType,
        dst: TileRef,
        tiles: Seq<TileRef>,
        killer: u16,
    ) -> GameView {
        let (game, losers) = self.razing(tiles);
        game.bleeding(nuke, losers, crate::lists::distinct(losers)).sweeping(
            dst,
            self.config.magnitude(nuke).outer as int,
            killer,
        )
    }
}

impl GameView {
    proof fn lemma_mourning(self, sid: u16, nuke: UnitType, before: int, n: nat)
        ensures
            self.mourning(sid, nuke, before, n).map == self.map,
            self.mourning(sid, nuke, before, n).config == self.config,
        decreases n,
    {
        if n > 0 {
            self.lemma_mourning(sid, nuke, before, (n - 1) as nat);
        }
    }

    /// Those who lose troops lose nothing else.
    proof fn lemma_bleeding(self, nuke: UnitType, losers: Seq<u16>, victims: Seq<u16>)
        ensures
            self.bleeding(nuke, losers, victims).map == self.map,
            self.bleeding(nuke, losers, victims).config == self.config,
        decreases victims.len(),
    {
        if victims.len() > 0 {
            let game = self.bleeding(nuke, losers, victims.drop_last());
            let n = losers.filter(is_id(victims.last())).len();
            self.lemma_bleeding(nuke, losers, victims.drop_last());
            game.lemma_mourning(
                victims.last(),
                nuke,
                game.tiles_owned(victims.last()) + n,
                n,
            );
        }
    }
}

impl GameView {
    proof fn lemma_refusing(self, nuker: u16, targets: Seq<u16>)
        ensures
            self.refusing(nuker, targets).map == self.map,
            self.refusing(nuker, targets).config == self.config,
        decreases targets.len(),
    {
        if targets.len() > 0 {
            self.lemma_refusing(nuker, targets.drop_last());
        }
    }

    proof fn lemma_falling_out(self, nuker: u16, targets: Seq<u16>)
        ensures
            self.falling_out(nuker, targets).map == self.map,
            self.falling_out(nuker, targets).config == self.config,
        decreases targets.len(),
    {
        if targets.len() > 0 {
            self.lemma_falling_out(nuker, targets.drop_last());
        }
    }

    /// Falling out with others leaves the map as it is.
    pub proof fn lemma_estranging(self, nuker: u16, dst: TileRef, nuke: UnitType)
        ensures
            self.estranging(nuker, dst, nuke).map == self.map,
            self.estranging(nuker, dst, nuke).config == self.config,
    {
        let targets = self.struck(dst, nuke);
        self.lemma_refusing(nuker, targets);
        self.refusing(nuker, targets).lemma_falling_out(nuker, targets);
    }

    proof fn lemma_razing(self, tiles: Seq<TileRef>)
        requires
            forall|i: int| 0 <= i < tiles.len() ==> self.map.valid(#[trigger] tiles[i]),
        ensures
            self.razing(tiles).0.map.same_size(self.map),
            self.razing(tiles).0.config == self.config,
        decreases tiles.len(),
    {
        if tiles.len() > 0 {
            self.lemma_razing(tiles.drop_last());
            assert(self.map.valid(tiles[tiles.len() - 1]));
        }
    }

    /// A blast leaves the size of the map as it is.
    pub proof fn lemma_exploding(
        self,
        nuke: UnitType,
        dst: TileRef,
        tiles: Seq<TileRef>,
        killer: u16,
    )
        requires
            forall|i: int| 0 <= i < tiles.len() ==> self.map.valid(#[trigger] tiles[i]),
        ensures
            self.exploding(nuke, dst, tiles, killer).map.same_size(self.map),
            self.exploding(nuke, dst, tiles, killer).config == self.config,
    {
        let (game, losers) = self.razing(tiles);
        self.lemma_razing(tiles);
        game.lemma_bleeding(nuke, losers, crate::lists::distinct(losers));
    }
}

pub open spec fn is_id(id: u16) -> spec_fn(u16) -> bool {
    |other: u16| other == id
}

/// What the tiles of each owner count together, by owner.
fn tolls(map: &GameMap, tiles: &Vec<TileRef>, dst: TileRef, reach: NukeMagnitude) -> (sums: Vec<u64>)
    requires
        map@.wf(),
        map@.valid(dst),
        reach.inner <= 1000,
        reach.outer <= 1000,
        forall|i: int| 0 <= i < tiles@.len() ==> map@.valid(#[trigger] tiles@[i]),
        tiles@.len() <= 0xffff_ffff,
    ensures
        sums@.len() == 65536,
        forall|owner: u16|
            #[trigger] sums@[owner as int] == toll_of(map@, tiles@, dst, reach, owner),
{
    let mut sums: Vec<u64> = Vec::new();
    for k in 0..65536u32
        invariant
            sums@.len() == k,
            forall|j: int| 0 <= j < k ==> #[trigger] sums@[j] == 0,
    {
        sums.push(0);
    }
    assert(tiles@.take(0) =~= Seq::<TileRef>::empty());
    assert(reach.inner * reach.inner <= 1000 * 1000 && reach.outer * reach.outer <= 1000 * 1000)
        by (nonlinear_arith)
        requires
            reach.inner <= 1000,
            reach.outer <= 1000,
    ;
    let inner2: u64 = reach.inner as u64 * reach.inner as u64;
    let outer2: u64 = reach.outer as u64 * reach.outer as u64;
    for i in 0..tiles.len()
        invariant
            map@.wf(),
            map@.valid(dst),
            inner2 == reach.inner * reach.inner,
            outer2 == reach.outer * reach.outer,
            tiles@.len() <= 0xffff_ffff,
            forall|k: int| 0 <= k < tiles@.len() ==> map@.valid(#[trigger] tiles@[k]),
            sums@.len() == 65536,
            forall|owner: u16|
                #[trigger] sums@[owner as int] == toll_of(
                    map@,
                    tiles@.take(i as int),
                    dst,
                    reach,
                    owner,
                ),
            forall|j: int| 0 <= j < 65536 ==> #[trigger] sums@[j] <= 2 * i,
    {
        let t: TileRef = tiles[i];
        let ghost before = sums@;
        assert(tiles@.take(i + 1).drop_last() =~= tiles@.take(i as int));
        assert(tiles@.take(i + 1).last() == t);
        let d2: u64 = map.euclidean_dist_squared(dst, t);
        let count: u64 = if d2 <= inner2 {
            2
        } else if d2 <= outer2 {
            1
        } else {
            0
        };
        let owner: usize = map.owner_id(t) as usize;
        let held: u64 = sums[owner];
        sums.set(owner, held + count);
        assert forall|o: u16| #[trigger]
            sums@[o as int] == toll_of(map@, tiles@.take(i + 1), dst, reach, o) by {
            assert(before[o as int] == toll_of(map@, tiles@.take(i as int), dst, reach, o));
        }
    }
    assert(tiles@.take(tiles@.len() as int) =~= tiles@);
    sums
}

impl Game {
    /// The structures at most `r` tiles from `t`, oldest first.
    pub fn nearby_structures_any(&self, t: TileRef, r: u32) -> (units: Vec<Unit>)
        requires
            self@.wf(),
            self@.map.valid(t),
        ensures
            units@ == self@.units.filter(self@.standing_within(t, r as int)),
    {
        assert(r * r <= 0xffff_ffff * 0xffff_ffff) by (nonlinear_arith)
            requires
                0 <= r <= 0xffff_ffff,
        ;
        let r2: u64 = r as u64 * r as u64;
        let ghost p = self@.standing_within(t, r as int);
        let mut units: Vec<Unit> = Vec::new();
        assert(self.units@.take(0).filter(p) =~= Seq::empty()) by {
            reveal(Seq::filter);
        }
        for i in 0..self.units.len()
            invariant
                self@.wf(),
                self@.map.valid(t),
                r2 == r * r,
                p == self@.standing_within(t, r as int),
                units@ == self.units@.take(i as int).filter(p),
        {
            let u: Unit = self.units[i];
            proof {
                crate::lists::lemma_filter_step(self.units@, p, i as int);
                assert(self@.units[i as int] == u);
            }
            if u.unit_type.is_structure() && self.map.euclidean_dist_squared(t, u.tile) <= r2 {
                units.push(u);
            }
        }
        proof {
            crate::lists::lemma_take_all(self.units@);
        }
        units
    }

    /// The players whose alliance a nuke would break.
    pub fn list_nuke_break_alliance(&self, dst: TileRef, nuke: UnitType) -> (targets: Vec<u16>)
        requires
            self@.wf(),
            self@.map.valid(dst),
        ensures
            targets@ == self@.struck(dst, nuke),
    {
        let reach = self.wire.nuke_magnitudes(nuke);
        let tiles = tiles_in_square(&self.map, dst, reach.outer);
        proof {
            self@.map.lemma_square_len(dst, reach.outer as int);
        }
        let sums = tolls(&self.map, &tiles, dst, reach);
        let ids = self.player_ids();
        let threshold: u64 = 2 * self.wire.nuke_alliance_break_threshold as u64;
        let ghost p = self@.heavily_hit(dst, nuke);
        let accepts = |id: u16| -> (heavy: bool)
            ensures
                heavy == p(id),
            {
                assert(sums@[id as int] == toll_of(self@.map, tiles@, dst, reach, id));
                sums[id as usize] > threshold
            };
        let mut targets = crate::lists::filter_by(&ids, accepts, Ghost(p));
        let units = self.nearby_structures_any(dst, reach.outer);
        let ghost heavy = targets@;
        assert(units@.take(0) =~= Seq::<Unit>::empty());
        for i in 0..units.len()
            invariant
                targets@ == joined(heavy, units@.take(i as int)),
        {
            assert(units@.take(i + 1).drop_last() =~= units@.take(i as int));
            assert(units@.take(i + 1).last() == units@[i as int]);
            if !crate::lists::has_id(&targets, units[i].owner) {
                targets.push(units[i].owner);
            }
        }
        assert(units@.take(units@.len() as int) =~= units@);
        targets
    }

    /// Has a player fall out with those that its nuke would hit.
    pub fn maybe_break_alliances(&mut self, nuker_sid: u16, dst: TileRef, nuke: UnitType)
        requires
            old(self).wf(),
            old(self)@.map.valid(dst),
        ensures
            final(self).wf(),
            final(self)@ == old(self)@.estranging(nuker_sid, dst, nuke),
    {
        if nuke == UnitType::MirvWarhead {
            return;
        }
        let targets = self.list_nuke_break_alliance(dst, nuke);
        let ghost start = self@;
        assert(targets@.take(0) =~= Seq::<u16>::empty());
        for i in 0..targets.len()
            invariant
                self.wf(),
                self@ == start.refusing(nuker_sid, targets@.take(i as int)),
        {
            assert(targets@.take(i + 1).drop_last() =~= targets@.take(i as int));
            let t: u16 = targets[i];
            if self.pending_alliance_request(t, nuker_sid).is_some() {
                self.reject_alliance_request(t, nuker_sid);
            }
        }
        assert(targets@.take(targets@.len() as int) =~= targets@);
        let ghost middle = self@;
        for i in 0..targets.len()
            invariant
                self.wf(),
                self@ == middle.falling_out(nuker_sid, targets@.take(i as int)),
        {
            assert(targets@.take(i + 1).drop_last() =~= targets@.take(i as int));
            let t: u16 = targets[i];
            if self.pending_alliance_request(nuker_sid, t).is_some() {
                self.reject_alliance_request(nuker_sid, t);
            } else {
                self.break_alliance_silently(nuker_sid, t);
                if t != nuker_sid {
                    self.update_relation(t, nuker_sid, -100);
                }
            }
        }
        assert(targets@.take(targets@.len() as int) =~= targets@);
    }

    /// The tiles that are to become water, and the game without them. What somebody has
    /// taken in the meantime stays land.
    pub fn take_water_conversions(&mut self) -> (tiles: Vec<TileRef>)
        requires
            old(self).wf(),
        ensures
            final(self).wf(),
            tiles@ == old(self)@.drowning.filter(old(self)@.map.unclaimed()),
            final(self)@ == (GameView { drowning: Seq::empty(), ..old(self)@ }),
    {
        let game_now: &Game = self;
        let accepts = |t: TileRef| -> (free: bool)
            ensures
                free == game_now@.map.unclaimed()(t),
            { game_now.map.is_on_map(t) && game_now.map.owner_id(t) == 0 };
        let tiles = crate::lists::filter_by(
            &game_now.drowning,
            accepts,
            Ghost(game_now@.map.unclaimed()),
        );
        self.drowning = Vec::new();
        tiles
    }

    /// Land that burnt waits to become water, or gets fallout.
    pub fn queue_water_conversion(&mut self, t: TileRef)
        requires
            old(self).wf(),
            old(self)@.map.valid(t),
        ensures
            final(self).wf(),
            final(self)@ == old(self)@.scorching(t),
    {
        if self.wire.water_nukes {
            self.drowning.push(t);
        } else {
            self.map.set_fallout(t, true);
        }
    }

    /// Destroys tiles, and names the owners who lost them.
    fn raze(&mut self, tiles: &Vec<TileRef>) -> (losers: Vec<u16>)
        requires
            old(self).wf(),
            forall|i: int| 0 <= i < tiles@.len() ==> old(self)@.map.valid(#[trigger] tiles@[i]),
        ensures
            final(self).wf(),
            (final(self)@, losers@) == old(self)@.razing(tiles@),
            final(self)@.map.same_size(old(self)@.map),
            final(self)@.config == old(self)@.config,
            losers@.len() <= tiles@.len(),
    {
        let ghost start = self@;
        let mut losers: Vec<u16> = Vec::new();
        assert(tiles@.take(0) =~= Seq::<TileRef>::empty());
        for i in 0..tiles.len()
            invariant
                self.wf(),
                self@.map.same_size(start.map),
                self@.config == start.config,
                forall|k: int| 0 <= k < tiles@.len() ==> start.map.valid(#[trigger] tiles@[k]),
                (self@, losers@) == start.razing(tiles@.take(i as int)),
                losers@.len() <= i,
        {
            assert(tiles@.take(i + 1).drop_last() =~= tiles@.take(i as int));
            let t: TileRef = tiles[i];
            assert(tiles@.take(i + 1).last() == t);
            let ghost held = losers@;
            let owner: u16 = self.map.owner_id(t);
            let land = self.map.is_land(t);
            if owner != 0 {
                self.relinquish_tile(t);
                losers.push(owner);
                assert(losers@ =~= held + seq![owner]);
            } else {
                assert(losers@ =~= held + Seq::<u16>::empty());
            }
            if land {
                self.queue_water_conversion(t);
            }
        }
        assert(tiles@.take(tiles@.len() as int) =~= tiles@);
        losers
    }

    /// Takes what dies with one tile from the forces that a player has sent out.
    pub fn apply_nuke_deaths_to_deployed_forces(
        &mut self,
        sid: u16,
        nuke: UnitType,
        left: i64,
        milli: i64,
    )
        requires
            old(self).wf(),
            0 <= milli <= crate::config::MAX_TROOPS_LIMIT,
        ensures
            final(self).wf(),
            final(self)@ == old(self)@.thinning(sid, nuke, left as int, milli as int),
    {
        let ghost start = self@;
        let n: usize = self.attacks.len();
        for i in 0..n
            invariant
                n == start.attacks.len(),
                self.wf(),
                0 <= milli <= crate::config::MAX_TROOPS_LIMIT,
                start == old(self)@,
                self@ == (GameView { attacks: self@.attacks, ..start }),
                self@.attacks.len() == start.attacks.len(),
                forall|k: int| i <= k < start.attacks.len() ==> self@.attacks[k] == start.attacks[k],
                forall|k: int|
                    0 <= k < i ==> #[trigger] self@.attacks[k] == start.thinning(
                        sid,
                        nuke,
                        left as int,
                        milli as int,
                    ).attacks[k],
        {
            let ghost before = self@;
            assert(self@.attacks[i as int].wf());
            if self.attacks[i].attacker == sid {
                let kept: i64 = survivors(&self.wire, nuke, self.attacks[i].troops, left, milli);
                self.attacks[i].troops = kept;
            }
            assert(self@.attacks[i as int] == self.attacks@[i as int]@);
            assert(self@.attacks[i as int] =~= start.thinning(
                sid,
                nuke,
                left as int,
                milli as int,
            ).attacks[i as int]);
            assert forall|k: int| 0 <= k < i + 1 implies #[trigger] self@.attacks[k] == start.thinning(
                sid,
                nuke,
                left as int,
                milli as int,
            ).attacks[k] by {
                if k < i {
                    assert(self@.attacks[k] == before.attacks[k]);
                }
            }
            assert forall|k: int| 0 <= k < n implies (#[trigger] self@.attacks[k]).wf() by {
                assert(before.attacks[k].wf());
            }
        }
        assert(self@.attacks =~= start.thinning(sid, nuke, left as int, milli as int).attacks);
        let ghost middle = self@;
        let n: usize = self.units.len();
        for i in 0..n
            invariant
                n == start.units.len(),
                self.wf(),
                0 <= milli <= crate::config::MAX_TROOPS_LIMIT,
                middle == (GameView {
                    attacks: start.thinning(sid, nuke, left as int, milli as int).attacks,
                    ..start
                }),
                self@ == (GameView { units: self.units@, ..middle }),
                self.units@.len() == start.units.len(),
                forall|k: int| i <= k < start.units.len() ==> self.units@[k] == start.units[k],
                forall|k: int|
                    0 <= k < i ==> #[trigger] self.units@[k] == start.thinning(
                        sid,
                        nuke,
                        left as int,
                        milli as int,
                    ).units[k],
        {
            let u: Unit = self.units[i];
            assert(self@.units[i as int].wf());
            if u.owner == sid && u.unit_type == UnitType::Transport && u.troops > 0 {
                let kept: i64 = survivors(&self.wire, nuke, u.troops, left, milli);
                let ghost before = self@;
                self.units.set(i, Unit { troops: kept, ..u });
                assert(self@.units =~= before.units.update(i as int, Unit { troops: kept, ..u }));
                assert(self@.map == before.map && self@.players == before.players && self@.config
                    == before.config && self@.attacks == before.attacks && self@.borders
                    == before.borders);
                assert(forall|k: int|
                    0 <= k < self@.units.len() ==> (#[trigger] self@.units[k]).wf());
                assert(forall|k: int|
                    0 <= k < self@.units.len() ==> self@.map.valid((#[trigger] self@.units[k]).tile));
            }
        }
        assert(self.units@ =~= start.thinning(sid, nuke, left as int, milli as int).units);
    }

    /// Takes what dies with one tile from a player, at home and elsewhere.
    fn suffer(&mut self, sid: u16, nuke: UnitType, left: i64, milli: i64)
        requires
            old(self).wf(),
            0 <= milli <= crate::config::MAX_TROOPS_LIMIT,
        ensures
            final(self).wf(),
            final(self)@ == old(self)@.suffering(sid, nuke, left as int, milli as int),
    {
        let troops: i64 = self.troops_of(sid);
        let dead: i128 = deaths(&self.wire, nuke, troops * TROOP_SCALE, left, milli)
            / TROOP_SCALE as i128;
        if sid >= 1 && sid as usize <= self.players.len() {
            let kept: i64 = if dead >= troops as i128 {
                0
            } else {
                troops - dead as i64
            };
            assert(self@.players[sid - 1].wf());
            self.players[sid as usize - 1].troops = kept;
            assert(self.players@ =~= old(self)@.with_player(
                sid,
                Player { troops: kept, ..old(self)@.player(sid) },
            ).players);
        }
        self.apply_nuke_deaths_to_deployed_forces(sid, nuke, left, milli);
    }

    /// Takes what dies with `n` tiles from the player who lost them.
    fn mourn(&mut self, sid: u16, nuke: UnitType, n: usize)
        requires
            old(self).wf(),
            n <= 0xffff_ffff,
        ensures
            final(self).wf(),
            final(self)@ == old(self)@.mourning(
                sid,
                nuke,
                old(self)@.tiles_owned(sid) + n,
                n as nat,
            ),
    {
        let before: i64 = self.tiles_of(sid) + n as i64;
        let milli: i64 = self.max_troops_for(sid);
        let ghost start = self@;
        for i in 0..n
            invariant
                self.wf(),
                0 <= milli <= crate::config::MAX_TROOPS_LIMIT,
                milli == start.max_troops_milli(sid),
                0 <= before <= 0x2_ffff_ffff,
                n <= 0xffff_ffff,
                self@ == start.mourning(sid, nuke, before as int, i as nat),
        {
            self.suffer(sid, nuke, before - i as i64, milli);
        }
    }

    /// Takes what dies from each of those who lost tiles.
    fn bleed(&mut self, nuke: UnitType, losers: &Vec<u16>)
        requires
            old(self).wf(),
            losers@.len() <= 0xffff_ffff,
        ensures
            final(self).wf(),
            final(self)@ == old(self)@.bleeding(nuke, losers@, crate::lists::distinct(losers@)),
    {
        let victims = crate::lists::distinct_ids(losers);
        let ghost start = self@;
        assert(victims@.take(0) =~= Seq::<u16>::empty());
        for i in 0..victims.len()
            invariant
                self.wf(),
                losers@.len() <= 0xffff_ffff,
                self@ == start.bleeding(nuke, losers@, victims@.take(i as int)),
        {
            assert(victims@.take(i + 1).drop_last() =~= victims@.take(i as int));
            let id: u16 = victims[i];
            let accepts = |other: u16| -> (same: bool)
                ensures
                    same == (other == id),
                { other == id };
            let lost = crate::lists::filter_by(losers, accepts, Ghost(is_id(id)));
            self.mourn(id, nuke, lost.len());
        }
        assert(victims@.take(victims@.len() as int) =~= victims@);
    }

    /// Destroys the units in reach of a blast.
    fn sweep(&mut self, dst: TileRef, outer: u32, killer: u16)
        requires
            old(self).wf(),
            old(self)@.map.valid(dst),
            outer <= 1000,
        ensures
            final(self).wf(),
            final(self)@ == old(self)@.sweeping(dst, outer as int, killer),
    {
        assert(outer * outer <= 1000 * 1000) by (nonlinear_arith)
            requires
                outer <= 1000,
        ;
        let outer2: u64 = outer as u64 * outer as u64;
        let ghost p = self@.outlasting(dst, outer as int);
        let ghost q = self@.sinking(dst, outer as int);
        let ghost f = GameView::sunk_by(killer);
        let mut kept: Vec<Unit> = Vec::new();
        let mut sunk: Vec<TransportKill> = Vec::new();
        assert(self.units@.take(0).filter(p) =~= Seq::empty()) by {
            reveal(Seq::filter);
        }
        assert(self.units@.take(0).filter(q).map_values(f) =~= Seq::empty()) by {
            reveal(Seq::filter);
        }
        for i in 0..self.units.len()
            invariant
                self.wf(),
                self@.map.valid(dst),
                outer2 == outer * outer,
                p == self@.outlasting(dst, outer as int),
                q == self@.sinking(dst, outer as int),
                f == GameView::sunk_by(killer),
                sunk@ == self.units@.take(i as int).filter(q).map_values(f),
                kept@ == self.units@.take(i as int).filter(p),
        {
            let u: Unit = self.units[i];
            proof {
                crate::lists::lemma_filter_step(self.units@, p, i as int);
                crate::lists::lemma_filter_step(self.units@, q, i as int);
                assert(self@.units[i as int] == u);
            }
            let ghost held = self.units@.take(i as int).filter(q);
            if u.unit_type.is_nuke() || u.unit_type == UnitType::SamMissile
                || self.map.euclidean_dist_squared(dst, u.tile) >= outer2 {
                kept.push(u);
            } else if u.unit_type == UnitType::Transport {
                sunk.push(TransportKill { unit_id: u.id, owner: u.owner, killer, tile: u.tile });
                assert(held.push(u).map_values(f) =~= held.map_values(f).push(f(u)));
            }
        }
        proof {
            crate::lists::lemma_take_all(self.units@);
            crate::game_units::lemma_filtered_units(self@.map, self@.units, p);
        }
        self.units = kept;
        self.transport_kills.append(&mut sunk);
    }

    /// Sets off a nuke of `killer` at `dst` that destroys `tiles`.
    pub fn explode(&mut self, nuke: UnitType, dst: TileRef, tiles: &Vec<TileRef>, killer: u16)
        requires
            old(self).wf(),
            old(self)@.map.valid(dst),
            tiles@.len() <= 0xffff_ffff,
            forall|i: int| 0 <= i < tiles@.len() ==> old(self)@.map.valid(#[trigger] tiles@[i]),
        ensures
            final(self).wf(),
            final(self)@ == old(self)@.exploding(nuke, dst, tiles@, killer),
    {
        let reach = self.wire.nuke_magnitudes(nuke);
        let losers = self.raze(tiles);
        let ghost razed = self@;
        self.bleed(nuke, &losers);
        proof {
            razed.lemma_bleeding(nuke, losers@, crate::lists::distinct(losers@));
        }
        self.sweep(dst, reach.outer, killer);
    }
}

/// How many scaled troops die with one tile.
fn deaths(config: &Config, nuke: UnitType, amount: i64, left: i64, milli: i64) -> (dead: i128)
    requires
        0 <= amount,
        0 <= milli <= crate::config::MAX_TROOPS_LIMIT,
    ensures
        dead == nuke_deaths(*config, nuke, amount as int, left as int, milli as int),
        0 <= dead,
{
    if nuke != UnitType::MirvWarhead {
        let share: i128 = if left < 1 {
            1
        } else {
            left as i128
        };
        let dead: i128 = (5 * amount as i128) / share;
        assert(dead >= 0) by (nonlinear_arith)
            requires
                dead == (5 * amount) / (share as int),
                amount >= 0,
                share >= 1,
        ;
        dead
    } else if milli <= 0 || config.warhead_deaths.len() == 0 {
        0
    } else {
        let share: i128 = (10 * amount as i128) / milli as i128;
        assert(share >= 0) by (nonlinear_arith)
            requires
                share == (10 * amount) / (milli as int),
                amount >= 0,
                milli > 0,
        ;
        let at: usize = if share < config.warhead_deaths.len() as i128 {
            share as usize
        } else {
            config.warhead_deaths.len() - 1
        };
        config.warhead_deaths[at] as i128
    }
}

/// What is left of `amount` scaled troops, none at least.
fn survivors(config: &Config, nuke: UnitType, amount: i64, left: i64, milli: i64) -> (kept: i64)
    requires
        0 <= milli <= crate::config::MAX_TROOPS_LIMIT,
    ensures
        kept == surviving(*config, nuke, amount as int, left as int, milli as int),
        0 <= kept,
        kept == 0 || kept <= amount,
{
    if amount <= 0 {
        return 0;
    }
    let dead: i128 = deaths(config, nuke, amount, left, milli);
    if dead >= amount as i128 {
        0
    } else {
        amount - dead as i64
    }
}

/// Whether the fire spreads to a tile.
fn does_catch(map: &GameMap, random: &mut PseudoRandom, dst: TileRef, reach: NukeMagnitude, t: TileRef) -> (
    catches_: bool)
    requires
        map@.wf(),
        map@.valid(dst),
        map@.valid(t),
        reach.inner <= 1000,
        reach.outer <= 1000,
    ensures
        (catches_, final(random).state) == catches(map@, dst, reach, t, old(random).state),
{
    assert(reach.inner * reach.inner <= 1000 * 1000 && reach.outer * reach.outer <= 1000 * 1000)
        by (nonlinear_arith)
        requires
            reach.inner <= 1000,
            reach.outer <= 1000,
    ;
    let d2: u64 = map.euclidean_dist_squared(dst, t);
    if d2 > reach.outer as u64 * reach.outer as u64 {
        false
    } else if d2 <= reach.inner as u64 * reach.inner as u64 {
        !map.is_impassable(t)
    } else {
        random.chance(2) && !map.is_impassable(t)
    }
}

/// The tiles that a nuke destroys.
pub fn crater_tiles(map: &GameMap, dst: TileRef, reach: NukeMagnitude, tick: u32) -> (tiles: Vec<
    TileRef,
>)
    requires
        map@.wf(),
        map@.valid(dst),
        reach.inner <= 1000,
        reach.outer <= 1000,
    ensures
        tiles@ == crater(map@, dst, reach, tick),
        tiles@.len() <= map@.tiles.len(),
        forall|i: int| 0 <= i < tiles@.len() ==> map@.valid(#[trigger] tiles@[i]),
{
    let mut random = PseudoRandom::new(tick as i32);
    let mut burning = OrderedTiles::default();
    if !does_catch(map, &mut random, dst, reach, dst) {
        return burning.iter();
    }
    burning.insert(dst);
    assert(burning@ =~= seq![dst]);
    let total: usize = map.tiles.len();
    let mut at: usize = 0;
    let ghost goal = burnt(map@, dst, reach, burning@, 0, random.state, map@.tiles.len());
    while at < total && at < burning.len()
        invariant
            map@.wf(),
            map@.valid(dst),
            reach.inner <= 1000,
            reach.outer <= 1000,
            burning.wf(),
            total == map@.tiles.len(),
            at <= total,
            forall|i: int| 0 <= i < burning@.len() ==> map@.valid(#[trigger] burning@[i]),
            goal == burnt(
                map@,
                dst,
                reach,
                burning@,
                at as int,
                random.state,
                (total - at) as nat,
            ),
        decreases total - at,
    {
        let t: TileRef = burning.get(at);
        assert(map@.valid(burning@[at as int]));
        let next = map.neighbors4(t);
        let ghost held = burning@;
        let ghost start = random.state;
        assert(next@.take(0) =~= Seq::<TileRef>::empty());
        for i in 0..next.len()
            invariant
                map@.wf(),
                map@.valid(dst),
                reach.inner <= 1000,
                reach.outer <= 1000,
                burning.wf(),
                forall|k: int| 0 <= k < next@.len() ==> map@.valid(#[trigger] next@[k]),
                forall|k: int| 0 <= k < burning@.len() ==> map@.valid(#[trigger] burning@[k]),
                (burning@, random.state) == caught(
                    map@,
                    dst,
                    reach,
                    held,
                    next@.take(i as int),
                    start,
                ),
        {
            assert(next@.take(i + 1).drop_last() =~= next@.take(i as int));
            let n: TileRef = next[i];
            assert(next@.take(i + 1).last() == n);
            if !burning.contains(n) {
                if does_catch(map, &mut random, dst, reach, n) {
                    burning.insert(n);
                }
            }
        }
        assert(next@.take(next@.len() as int) =~= next@);
        at += 1;
    }
    proof {
        burning.lemma_no_duplicates();
        crate::lists::lemma_distinct_below(burning@, map@.tiles.len());
    }
    burning.iter()
}

} // verus!
