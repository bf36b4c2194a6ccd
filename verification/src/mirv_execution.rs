//! MIRVs: flight and separation.

use vstd::prelude::*;

use crate::exec_enum::ExecEnum;
use crate::execution::Execution;
use crate::game::{Game, GameView};
use crate::nuke_execution::{can_build_nuke, NukeExecution};
use crate::ordered_tiles::TileRef;
use crate::orders::Order;
use crate::parabola::{create_curve, nearest_tile, Curve, Pt, TILE_UNITS};
use crate::prng::{PseudoRandom, RAW_RANGE};
use crate::state::Unit;
use crate::unit_type::UnitType;

verus! {

/// How far from its target a MIRV drops warheads, in tiles.
pub const RANGE: i64 = 1500;

/// Two warheads land at least this far apart.
pub const MINIMUM_SPREAD: i64 = 55;

pub const WARHEAD_COUNT: usize = 350;

/// How often a MIRV looks for one more target.
pub const ROUNDS: u32 = 1000;

/// How many places it looks at each time.
pub const TRIES: u32 = 100;

/// A MIRV from its launch to its separation.
pub struct MirvExecution {
    pub owner_small_id: u16,
    pub dst: TileRef,
    pub active: bool,
    pub mirv_unit_id: Option<i32>,
    pub spawn_tile: Option<TileRef>,
    pub separate_dst: Option<TileRef>,
    pub target_owner_small_id: u16,
    pub curve: Option<Curve>,
    pub random: PseudoRandom,
}

/// A coordinate from `RANGE` below `base` to as much above it, as the share `raw` of
/// `RAW_RANGE` says, to the nearest whole number.
pub open spec fn spread_coord(raw: int, base: int) -> int {
    base - RANGE + (raw * 3000 + 0x8000_0000) / 0x1_0000_0000
}

/// The second share that is made from the first.
pub open spec fn second_raw(raw: int) -> int {
    (raw * 15485863) % 0x1_0000_0000
}

impl GameView {
    /// Whether a place is nearer than `MINIMUM_SPREAD` to one of `taken`.
    pub open spec fn crowded(self, x: int, y: int, taken: Seq<TileRef>) -> bool {
        exists|i: int|
            0 <= i < taken.len() && crate::map::gap(x, self.map.x(#[trigger] taken[i]))
                + crate::map::gap(y, self.map.y(taken[i])) < MINIMUM_SPREAD
    }

    /// Whether a warhead may land at a place.
    pub open spec fn warhead_spot(
        self,
        x: int,
        y: int,
        dst: TileRef,
        owner: u16,
        taken: Seq<TileRef>,
    ) -> bool {
        &&& self.map.valid_coord(x, y)
        &&& self.map.is_land(self.map.at(x, y))
        &&& (x - self.map.x(dst)) * (x - self.map.x(dst)) + (y - self.map.y(dst)) * (y - self.map.y(
            dst,
        )) <= RANGE * RANGE
        &&& self.map.owner(self.map.at(x, y)) == owner
        &&& !self.crowded(x, y, taken)
    }

    /// One more place for a warhead that is found in `tries` tries, and the random state
    /// after that.
    pub open spec fn warhead_place(
        self,
        rng: u64,
        dst: TileRef,
        owner: u16,
        taken: Seq<TileRef>,
        tries: nat,
    ) -> (Option<TileRef>, u64)
        decreases tries,
    {
        if tries == 0 {
            (None, rng)
        } else {
            let next = crate::prng::next_state(rng);
            let raw = crate::prng::raw_of(next) as int;
            let x = spread_coord(raw, self.map.x(dst));
            let y = spread_coord(second_raw(raw), self.map.y(dst));
            if self.warhead_spot(x, y, dst, owner, taken) {
                (Some(self.map.at(x, y)), next)
            } else {
                self.warhead_place(next, dst, owner, taken, (tries - 1) as nat)
            }
        }
    }

    /// The places for warheads after `rounds` more searches, and the random state after
    /// them.
    pub open spec fn warhead_places(
        self,
        rng: u64,
        dst: TileRef,
        owner: u16,
        taken: Seq<TileRef>,
        rounds: nat,
    ) -> (Seq<TileRef>, u64)
        decreases rounds,
    {
        if rounds == 0 || taken.len() >= WARHEAD_COUNT {
            (taken, rng)
        } else {
            let (place, next) = self.warhead_place(rng, dst, owner, taken, TRIES as nat);
            self.warhead_places(
                next,
                dst,
                owner,
                match place {
                    Some(t) => taken.push(t),
                    None => taken,
                },
                (rounds - 1) as nat,
            )
        }
    }

    /// Tiles with how far they are from `dst`, the farthest first.
    pub open spec fn from_afar(self, dst: TileRef) -> spec_fn(TileRef) -> (i64, TileRef) {
        |t: TileRef| ((-self.map.manhattan(t, dst)) as i64, t)
    }

    /// The targets of a MIRV's warheads, the farthest first, and the random state after
    /// they were chosen.
    pub open spec fn warhead_targets(self, rng: u64, dst: TileRef, owner: u16) -> (Seq<TileRef>, u64) {
        let (places, next) = self.warhead_places(rng, dst, owner, seq![dst], ROUNDS as nat);
        (
            crate::lists::payloads(
                crate::lists::sort_by_key(places.map_values(self.from_afar(dst))),
            ),
            next,
        )
    }

    /// The game after `sid` ordered warheads for the first `n` of `targets`, and the random
    /// state after that.
    pub open spec fn dropping(self, sid: u16, rng: u64, targets: Seq<TileRef>, n: nat) -> (GameView, u64)
        decreases n,
    {
        if n == 0 {
            (self, rng)
        } else {
            let (game, state) = self.dropping(sid, rng, targets, (n - 1) as nat);
            (
                game.ordering(
                    Order::Nuke {
                        nuke_type: UnitType::MirvWarhead,
                        owner: sid,
                        dst: targets[n - 1],
                        src: None,
                        speed: Some((15 + ((n - 1) * 5) / (WARHEAD_COUNT as int)) as u32),
                        wait_ticks: crate::prng::int_drawn(state, 0, 15) as u32,
                        rocket_direction_up: true,
                    },
                ),
                crate::prng::next_state(state),
            )
        }
    }

    /// The place at which a MIRV from `src` to `dst` separates, high above its target. On a
    /// low map it may be below the map.
    pub open spec fn separation(self, src: TileRef, dst: TileRef) -> TileRef {
        self.map.at(
            (self.map.x(dst) + self.map.x(src)) / 2,
            (if self.map.y(dst) < 500 {
                0
            } else {
                self.map.y(dst) - 500
            }) + 50,
        )
    }

    /// The game after a MIRV was built.
    pub open spec fn raising_mirv(self, sid: u16, src: TileRef, dst: TileRef) -> GameView {
        let built = self.building(sid, UnitType::Mirv, src);
        match built.unit(sid, self.next_unit_id) {
            Some(u) => built.with_unit(
                sid,
                self.next_unit_id,
                Unit { target_tile: Some(dst), ..u },
            ),
            None => built,
        }
    }

    /// The game after a unit went to a tile.
    pub open spec fn moving_unit(self, sid: u16, id: i32, tile: TileRef) -> GameView {
        match self.unit(sid, id) {
            Some(u) => self.with_unit(sid, id, Unit { tile, ..u }),
            None => self,
        }
    }
}

impl MirvExecution {
    /// What the execution was created with.
    pub open spec fn order(&self) -> Order {
        Order::Mirv { owner: self.owner_small_id, dst: self.dst }
    }

    pub fn new(owner_small_id: u16, dst: TileRef) -> (execution: Self)
        ensures
            execution.owner_small_id == owner_small_id,
            execution.dst == dst,
            execution.active,
            execution.mirv_unit_id is None,
            execution.spawn_tile is None,
            execution.separate_dst is None,
            execution.target_owner_small_id == 0,
            execution.curve is None,
            execution.random.state == crate::prng::seed_state(0),
    {
        MirvExecution {
            owner_small_id,
            dst,
            active: true,
            mirv_unit_id: None,
            spawn_tile: None,
            separate_dst: None,
            target_owner_small_id: 0,
            curve: None,
            random: PseudoRandom::new(0),
        }
    }

    /// What the MIRV's draws start from.
    pub open spec fn seed(&self, game: GameView) -> i32 {
        (game.tick + crate::util::hash_of(
            if game.has(self.owner_small_id) {
                game.player(self.owner_small_id).id@
            } else {
                Seq::empty()
            },
        )) as i32
    }

    /// The tile over which the MIRV separates.
    pub open spec fn apex(&self, game: GameView) -> TileRef {
        match self.separate_dst {
            Some(t) => t,
            None => game.separation(self.origin(game), self.dst),
        }
    }

    /// The tile from which the MIRV was launched.
    pub open spec fn origin(&self, game: GameView) -> TileRef {
        match self.spawn_tile {
            Some(t) => t,
            None => game.launch_site(self.owner_small_id, UnitType::Mirv, self.dst)->0,
        }
    }

    pub open spec fn route(&self, game: GameView) -> Seq<Pt> {
        match self.curve {
            Some(curve) => curve.points@,
            None => game.map.arc(self.origin(game), self.apex(game), true, true).path(
                game.config.nuke_speed * TILE_UNITS,
            ),
        }
    }

    /// How far the MIRV has flown after one more tick of flight.
    pub open spec fn next_distance(&self, game: GameView) -> int {
        let flown = match self.curve {
            Some(curve) => curve.total_distance as int,
            None => 0int,
        };
        let total = flown + game.config.nuke_speed * TILE_UNITS;
        if total > u64::MAX {
            u64::MAX as int
        } else {
            total
        }
    }

    pub open spec fn next_index(&self, game: GameView) -> int {
        let at = match self.curve {
            Some(curve) => curve.current_index as int,
            None => 0int,
        };
        crate::parabola::passed(self.route(game), at, self.next_distance(game))
    }

    /// Whether a path is the MIRV's after one more tick of flight.
    pub open spec fn flies_on(&self, game: GameView, curve: Option<Curve>) -> bool {
        &&& curve is Some
        &&& curve->0.points@ == self.route(game)
        &&& curve->0.current_index == self.next_index(game)
        &&& curve->0.total_distance == self.next_distance(game)
    }

    pub open spec fn arrives(&self, game: GameView) -> bool {
        self.next_index(game) >= self.route(game).len() - 1
    }

    /// The game after the MIRV with this unit id separated into its warheads.
    pub open spec fn separating(&self, game: GameView, id: i32) -> GameView {
        let (targets, rng) = game.warhead_targets(
            self.random.state,
            self.dst,
            self.target_owner_small_id,
        );
        game.dropping(self.owner_small_id, rng, targets, targets.len()).0.without_unit(
            self.owner_small_id,
            id,
        )
    }

    /// The MIRV's random state after it separated.
    pub open spec fn state_after(&self, game: GameView) -> u64 {
        let (targets, rng) = game.warhead_targets(
            self.random.state,
            self.dst,
            self.target_owner_small_id,
        );
        game.dropping(self.owner_small_id, rng, targets, targets.len()).1
    }

    /// The MIRV with the unit that it flies as.
    pub open spec fn aloft(&self, game: GameView, id: i32) -> MirvExecution {
        MirvExecution {
            mirv_unit_id: Some(id),
            spawn_tile: Some(self.origin(game)),
            separate_dst: Some(self.apex(game)),
            ..*self
        }
    }

    /// The MIRV after it flew for a tick with a path, which may be its last.
    pub open spec fn proceeded(
        &self,
        game: GameView,
        launched: GameView,
        curve: Option<Curve>,
    ) -> MirvExecution {
        if self.arrives(game) {
            MirvExecution {
                active: false,
                curve,
                random: PseudoRandom { state: self.state_after(launched) },
                ..*self
            }
        } else {
            MirvExecution { curve, ..*self }
        }
    }

    /// The game after the MIRV with this unit id flew for a tick.
    pub open spec fn proceeding(&self, game: GameView, launched: GameView, id: i32) -> GameView {
        if self.arrives(game) {
            self.separating(launched, id)
        } else {
            launched.moving_unit(
                self.owner_small_id,
                id,
                game.map.tile_near(self.route(game)[self.next_index(game)]),
            )
        }
    }
}

fn coord_drawn(raw: u64, base: i64) -> (c: i64)
    requires
        raw < RAW_RANGE,
        0 <= base <= 65535,
    ensures
        c == spread_coord(raw as int, base as int),
        -2000 <= c <= 70_000,
{
    base - RANGE + ((raw * 3000 + 0x8000_0000) / 0x1_0000_0000) as i64
}

/// Whether a place is too near to one that is taken.
fn is_overlapping(game: &Game, x: i64, y: i64, taken: &Vec<TileRef>) -> (overlaps: bool)
    requires
        game@.wf(),
        -2000 <= x <= 70_000,
        -2000 <= y <= 70_000,
        forall|i: int| 0 <= i < taken@.len() ==> game@.map.valid(#[trigger] taken@[i]),
    ensures
        overlaps == game@.crowded(x as int, y as int, taken@),
{
    for i in 0..taken.len()
        invariant
            game@.wf(),
            -2000 <= x <= 70_000,
            -2000 <= y <= 70_000,
            forall|k: int| 0 <= k < taken@.len() ==> game@.map.valid(#[trigger] taken@[k]),
            forall|k: int|
                0 <= k < i ==> crate::map::gap(x as int, game@.map.x(#[trigger] taken@[k]))
                    + crate::map::gap(y as int, game@.map.y(taken@[k])) >= MINIMUM_SPREAD,
    {
        proof {
            game@.map.lemma_xy(taken@[i as int]);
        }
        let tx: i64 = game.map.x(taken[i]) as i64;
        let ty: i64 = game.map.y(taken[i]) as i64;
        let dx: i64 = if x > tx {
            x - tx
        } else {
            tx - x
        };
        let dy: i64 = if y > ty {
            y - ty
        } else {
            ty - y
        };
        if dx + dy < MINIMUM_SPREAD {
            assert(crate::map::gap(x as int, game@.map.x(taken@[i as int])) == dx);
            return true;
        }
    }
    false
}

/// One more place for a warhead.
fn try_generate_target(
    game: &Game,
    random: &mut PseudoRandom,
    dst: TileRef,
    owner: u16,
    taken: &Vec<TileRef>,
) -> (place: Option<TileRef>)
    requires
        game@.wf(),
        game@.map.valid(dst),
        forall|i: int| 0 <= i < taken@.len() ==> game@.map.valid(#[trigger] taken@[i]),
    ensures
        (place, final(random).state) == game@.warhead_place(
            old(random).state,
            dst,
            owner,
            taken@,
            TRIES as nat,
        ),
        place is Some ==> game@.map.valid(place->0),
{
    proof {
        game@.map.lemma_xy(dst);
    }
    let base_x: i64 = game.map.x(dst) as i64;
    let base_y: i64 = game.map.y(dst) as i64;
    let ghost goal = game@.warhead_place(random.state, dst, owner, taken@, TRIES as nat);
    for k in 0..TRIES
        invariant
            game@.wf(),
            game@.map.valid(dst),
            forall|i: int| 0 <= i < taken@.len() ==> game@.map.valid(#[trigger] taken@[i]),
            base_x == game@.map.x(dst),
            base_y == game@.map.y(dst),
            0 <= base_x <= 65535,
            0 <= base_y <= 65535,
            goal == game@.warhead_place(old(random).state, dst, owner, taken@, TRIES as nat),
            goal == game@.warhead_place(random.state, dst, owner, taken@, (TRIES - k) as nat),
    {
        let raw: u64 = random.next_raw();
        let second: u64 = (raw * 15485863) % 0x1_0000_0000;
        let x: i64 = coord_drawn(raw, base_x);
        let y: i64 = coord_drawn(second, base_y);
        let dx: i64 = x - base_x;
        let dy: i64 = y - base_y;
        assert(0 <= dx * dx <= 100_000 * 100_000 && 0 <= dy * dy <= 100_000 * 100_000)
            by (nonlinear_arith)
            requires
                -100_000 <= dx <= 100_000,
                -100_000 <= dy <= 100_000,
        ;
        if game.map.is_valid_coord(x as i32, y as i32) {
            let t: TileRef = game.map.ref_xy(x as u32, y as u32);
            if game.map.is_land(t) && dx * dx + dy * dy <= RANGE * RANGE && game.map.owner_id(t)
                == owner && !is_overlapping(game, x, y, taken) {
                return Some(t);
            }
        }
    }
    None
}

/// The targets of a MIRV's warheads, the farthest first.
fn select_destinations(game: &Game, random: &mut PseudoRandom, dst: TileRef, owner: u16) -> (targets:
    Vec<TileRef>)
    requires
        game@.wf(),
        game@.map.valid(dst),
    ensures
        (targets@, final(random).state) == game@.warhead_targets(old(random).state, dst, owner),
        targets@.len() <= WARHEAD_COUNT,
{
    let mut taken: Vec<TileRef> = Vec::new();
    taken.push(dst);
    assert(taken@ =~= seq![dst]);
    let ghost goal = game@.warhead_places(random.state, dst, owner, taken@, ROUNDS as nat);
    let mut k: u32 = 0;
    while k < ROUNDS && taken.len() < WARHEAD_COUNT
        invariant
            game@.wf(),
            game@.map.valid(dst),
            k <= ROUNDS,
            taken@.len() <= WARHEAD_COUNT,
            forall|i: int| 0 <= i < taken@.len() ==> game@.map.valid(#[trigger] taken@[i]),
            goal == game@.warhead_places(random.state, dst, owner, taken@, (ROUNDS - k) as nat),
        decreases ROUNDS - k,
    {
        match try_generate_target(game, random, dst, owner, &taken) {
            Some(t) => {
                taken.push(t);
            },
            None => {},
        }
        k += 1;
    }
    let ghost f = game@.from_afar(dst);
    let mut keyed: Vec<(i64, TileRef)> = Vec::new();
    for i in 0..taken.len()
        invariant
            game@.wf(),
            game@.map.valid(dst),
            f == game@.from_afar(dst),
            forall|j: int| 0 <= j < taken@.len() ==> game@.map.valid(#[trigger] taken@[j]),
            keyed@ == taken@.take(i as int).map_values(f),
    {
        let d: i64 = game.map.manhattan_dist(taken[i], dst) as i64;
        keyed.push((-d, taken[i]));
        assert(taken@.take(i + 1).map_values(f) =~= taken@.take(i as int).map_values(f).push(
            f(taken@[i as int]),
        ));
    }
    proof {
        crate::lists::lemma_take_all(taken@);
        crate::lists::lemma_sort_by_key_len(keyed@);
    }
    crate::lists::sorted_payloads(&keyed)
}

impl Game {
    /// Moves a unit to a tile.
    pub fn move_unit(&mut self, sid: u16, id: i32, tile: TileRef)
        requires
            old(self).wf(),
            old(self)@.map.valid(tile),
        ensures
            final(self).wf(),
            final(self)@ == old(self)@.moving_unit(sid, id, tile),
    {
        match self.unit(sid, id) {
            Some(u) => {
                let mut moved: Unit = u;
                moved.tile = tile;
                self.replace_unit(sid, id, moved);
            },
            None => {},
        }
    }
}

impl MirvExecution {
    /// Builds the MIRV.
    fn raise(&self, game: &mut Game, src: TileRef) -> (id: i32)
        requires
            old(game).wf(),
            old(game)@.map.valid(self.dst),
            old(game)@.map.valid(src),
        ensures
            final(game).wf(),
            final(game)@ == old(game)@.raising_mirv(self.owner_small_id, src, self.dst),
            id == old(game)@.next_unit_id,
    {
        let id: i32 = game.build_unit(self.owner_small_id, UnitType::Mirv, src);
        match game.unit(self.owner_small_id, id) {
            Some(u) => {
                let mut aimed: Unit = u;
                aimed.target_tile = Some(self.dst);
                game.replace_unit(self.owner_small_id, id, aimed);
            },
            None => {},
        }
        id
    }

    /// Drops the warheads.
    fn separate(&mut self, game: &mut Game, id: i32)
        requires
            old(game).wf(),
            old(game)@.map.valid(old(self).dst),
        ensures
            final(game).wf(),
            final(game)@ == old(self).separating(old(game)@, id),
            final(game)@.map == old(game)@.map,
            *final(self) == (MirvExecution {
                random: PseudoRandom { state: old(self).state_after(old(game)@) },
                ..*old(self)
            }),
    {
        let targets = select_destinations(
            game,
            &mut self.random,
            self.dst,
            self.target_owner_small_id,
        );
        let ghost start = game@;
        let ghost rng = self.random.state;
        let sid: u16 = self.owner_small_id;
        let mut random = PseudoRandom { state: self.random.state };
        for i in 0..targets.len()
            invariant
                game.wf(),
                game@.map == start.map,
                targets@.len() <= WARHEAD_COUNT,
                (game@, random.state) == start.dropping(sid, rng, targets@, i as nat),
        {
            let wait: u32 = random.next_int(0, 15) as u32;
            let speed: u32 = 15 + (i as u32 * 5) / WARHEAD_COUNT as u32;
            game.add_execution(
                ExecEnum::Nuke(
                    NukeExecution::new(
                        UnitType::MirvWarhead,
                        sid,
                        targets[i],
                        None,
                        Some(speed),
                        wait,
                        true,
                    ),
                ),
            );
        }
        self.random = random;
        game.remove_unit(sid, id);
    }
}

impl Execution for MirvExecution {
    open spec fn ready(&self, game: GameView) -> bool {
        &&& game.map.valid(self.dst)
        &&& self.spawn_tile is Some ==> game.map.valid(self.spawn_tile->0)
        &&& self.separate_dst is Some ==> game.map.has_row(self.separate_dst->0)
        &&& self.mirv_unit_id is Some ==> self.spawn_tile is Some && self.separate_dst is Some
        &&& self.mirv_unit_id is None ==> self.spawn_tile is None && self.separate_dst is None
            && self.curve is None
        &&& self.curve is Some ==> self.curve->0.wf() && forall|i: int|
            0 <= i < self.curve->0.points@.len() ==> game.map.holds_column(
                #[trigger] self.curve->0.points@[i],
            )
    }

    open spec fn begun(&self, game: GameView, tick: u32) -> GameView {
        let target = game.map.owner(self.dst);
        if target == 0 {
            game
        } else if target == self.owner_small_id {
            game.unallied(self.owner_small_id, target)
        } else {
            game.unallied(self.owner_small_id, target).relating(
                target,
                self.owner_small_id,
                -100,
            ).relating(self.owner_small_id, target, -100)
        }
    }

    open spec fn ticked(&self, game: GameView, tick: u32) -> GameView {
        if !self.active {
            game
        } else {
            match self.mirv_unit_id {
                Some(id) => self.proceeding(game, game, id),
                None => match game.launch_site(self.owner_small_id, UnitType::Mirv, self.dst) {
                    Some(src) => self.proceeding(
                        game,
                        game.raising_mirv(self.owner_small_id, src, self.dst),
                        game.next_unit_id,
                    ),
                    None => game,
                },
            }
        }
    }

    open spec fn begun_as(&self, game: GameView, tick: u32, next: Self) -> bool {
        next == (MirvExecution {
            target_owner_small_id: game.map.owner(self.dst),
            random: PseudoRandom { state: crate::prng::seed_state(self.seed(game)) },
            ..*self
        })
    }

    open spec fn ticked_as(&self, game: GameView, tick: u32, next: Self) -> bool {
        if !self.active {
            next == *self
        } else {
            match self.mirv_unit_id {
                Some(id) => self.flies_on(game, next.curve) && next == self.proceeded(
                    game,
                    game,
                    next.curve,
                ),
                None => match game.launch_site(self.owner_small_id, UnitType::Mirv, self.dst) {
                    Some(src) => self.flies_on(game, next.curve) && next == self.aloft(
                        game,
                        game.next_unit_id,
                    ).proceeded(
                        game,
                        game.raising_mirv(self.owner_small_id, src, self.dst),
                        next.curve,
                    ),
                    None => next == (MirvExecution { active: false, ..*self }),
                },
            }
        }
    }

    open spec fn going(&self) -> bool {
        self.active
    }

    fn init(&mut self, game: &mut Game, tick: u32) {
        let hash: i32 = match game.player_by_small_id(self.owner_small_id) {
            Some(p) => crate::util::simple_hash(&p.id),
            None => 0,
        };
        self.random = PseudoRandom::new((game.tick as i64 + hash as i64) as i32);
        self.target_owner_small_id = game.map.owner_id(self.dst);
        if self.target_owner_small_id != 0 {
            game.break_alliance_silently(self.owner_small_id, self.target_owner_small_id);
            if self.target_owner_small_id != self.owner_small_id {
                game.update_relation(self.target_owner_small_id, self.owner_small_id, -100);
                game.update_relation(self.owner_small_id, self.target_owner_small_id, -100);
            }
        }
    }

    fn tick(&mut self, game: &mut Game, tick: u32) {
        if !self.active {
            return;
        }
        let ghost start = game@;
        let id: i32 = match self.mirv_unit_id {
            Some(id) => id,
            None => {
                let src: TileRef = match can_build_nuke(
                    game,
                    self.owner_small_id,
                    UnitType::Mirv,
                    self.dst,
                ) {
                    Some(src) => src,
                    None => {
                        self.active = false;
                        return;
                    },
                };
                self.spawn_tile = Some(src);
                let id: i32 = self.raise(game, src);
                self.mirv_unit_id = Some(id);
                proof {
                    game@.map.lemma_xy(self.dst);
                    game@.map.lemma_xy(src);
                }
                let x: u32 = (game.map.x(self.dst) + game.map.x(src)) / 2;
                let dst_y: u32 = game.map.y(self.dst);
                let y: u32 = if dst_y < 500 {
                    50
                } else {
                    dst_y - 500 + 50
                };
                let ghost w = game@.map.width;
                assert(y * w + x <= 65535 * 65535 && (y * w + x) / w as int == y) by (
                nonlinear_arith)
                    requires
                        0 <= y < 65535,
                        0 <= x < w,
                        w <= 65535,
                ;
                self.separate_dst = Some(y * game.map.width + x);
                id
            },
        };
        let src: TileRef = match self.spawn_tile {
            Some(src) => src,
            None => self.dst,
        };
        let apex: TileRef = match self.separate_dst {
            Some(apex) => apex,
            None => self.dst,
        };
        proof {
            game@.map.lemma_place(self.dst);
        }
        let speed: u32 = game.wire.nuke_speed;
        let flown: Option<Curve> = self.curve.take();
        let mut curve: Curve = match flown {
            Some(curve) => curve,
            None => create_curve(&game.map, src, apex, speed, true, true),
        };
        assert(curve.points@ == old(self).route(start));
        let next = curve.increment(speed as u64 * TILE_UNITS as u64);
        let index: usize = curve.current_index();
        self.curve = Some(curve);
        match next {
            None => {
                self.separate(game, id);
                self.active = false;
            },
            Some(p) => {
                assert(game@.map.holds_column(curve.points@[index as int]));
                let tile: TileRef = nearest_tile(&game.map, p);
                game.move_unit(self.owner_small_id, id, tile);
            },
        }
    }

    fn is_active(&self) -> (active: bool) {
        self.active
    }
}

} // verus!
