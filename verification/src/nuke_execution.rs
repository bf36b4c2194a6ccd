//! Nukes: launching, flight and detonation.

use vstd::prelude::*;

use crate::config::GameMode;
use crate::execution::Execution;
use crate::game::{Game, GameView};
use crate::game_blast::crater_tiles;
use crate::ordered_tiles::TileRef;
use crate::orders::Order;
use crate::parabola::{create_curve, find_path_tiles, point_to_tile, Curve, Pt, TILE_UNITS};
use crate::state::{Flight, FlightView, Launch, Unit};
use crate::unit_type::UnitType;

verus! {

/// The speed above which no missile flies, in tiles a tick.
pub const MAX_SPEED: u32 = 1_000_000;

/// A nuke from its launch to its detonation.
pub struct NukeExecution {
    pub nuke_type: UnitType,
    pub owner_small_id: u16,
    pub dst: TileRef,
    pub src: Option<TileRef>,
    /// In tiles a tick; the speed of the game's nukes where it is not given.
    pub speed: Option<u32>,
    pub wait_ticks: u32,
    pub rocket_direction_up: bool,
    pub active: bool,
    pub nuke_unit_id: Option<i32>,
    pub curve: Option<Curve>,
    /// The tiles to destroy, where they are known before the nuke goes off.
    pub tiles_to_destroy: Option<Vec<TileRef>>,
}

impl GameView {
    /// Whether a silo has no missile ready.
    pub open spec fn in_cooldown(self, u: Unit) -> bool {
        self.launches_of(u.id).len() >= u.level
    }

    /// Silos that can launch.
    pub open spec fn ready_silo(self, sid: u16) -> spec_fn(Unit) -> bool {
        |u: Unit|
            u.owner == sid && u.unit_type == UnitType::MissileSilo && !u.under_construction
                && !self.in_cooldown(u)
    }

    /// The tiles of the silos of a player that can launch, oldest first.
    pub open spec fn ready_silos(self, sid: u16) -> Seq<TileRef> {
        self.units.filter(self.ready_silo(sid)).map_values(|u: Unit| u.tile)
    }

    /// Structures of a team mate that a nuke would hit.
    pub open spec fn endangers(self, sid: u16, dst: TileRef, nuke: UnitType) -> bool {
        exists|i: int|
            0 <= i < self.units.len() && self.standing_within(
                dst,
                self.config.magnitude(nuke).outer as int,
            )(#[trigger] self.units[i]) && self.units[i].owner != 0 && self.on_same_team(
                sid,
                self.units[i].owner,
            )
    }

    /// The silo from which a player would launch a nuke at `dst`: the nearest that can.
    /// Until the game is won, nothing of its own team may be hit.
    pub open spec fn nuke_source(self, sid: u16, nuke: UnitType, dst: TileRef) -> Option<TileRef> {
        let owner = self.map.owner(dst);
        if self.spawn_immunity || self.map.is_impassable(dst) {
            None
        } else if self.winner is None && owner != 0 && self.on_same_team(sid, owner) {
            None
        } else if self.winner is None && self.config.is_team() && nuke != UnitType::Mirv
            && self.endangers(sid, dst, nuke) {
            None
        } else if !self.has(sid) {
            None
        } else {
            crate::game_land::nearest(self.map, self.ready_silos(sid), dst)
        }
    }

    /// Whether a missile would fly over impassable land.
    pub open spec fn blocked(self, src: TileRef, dst: TileRef, speed: int, high: bool, up: bool) -> bool {
        let tiles = self.map.flight(src, dst, speed, high, up);
        exists|i: int| 0 <= i < tiles.len() && self.map.is_impassable(#[trigger] tiles[i])
    }

    /// The tile from which a player can launch a nuke at `dst`.
    pub open spec fn launch_site(self, sid: u16, nuke: UnitType, dst: TileRef) -> Option<TileRef> {
        if self.config.disabled(nuke) || !self.has(sid) || self.gold(sid) < self.cost(sid, nuke) {
            None
        } else if nuke == UnitType::MirvWarhead {
            Some(dst)
        } else if self.tiles_owned(sid) <= 0 {
            None
        } else if nuke == UnitType::AtomBomb || nuke == UnitType::HydrogenBomb || (nuke
            == UnitType::Mirv && self.map.owner(dst) != 0) {
            match self.nuke_source(sid, nuke, dst) {
                Some(src) => if self.blocked(src, dst, self.config.nuke_speed as int, true, true) {
                    None
                } else {
                    Some(src)
                },
                None => None,
            }
        } else {
            None
        }
    }

    /// Whether a missile on a tile is near enough to `spot` to be shot down.
    pub open spec fn within_reach(self, spot: TileRef, tile: TileRef) -> bool {
        self.map.dist2(spot, tile) < self.config.nuke_targetable_range
            * self.config.nuke_targetable_range
    }

    /// Whether a missile from `src` to `dst` can be shot down on a tile.
    pub open spec fn exposed(self, src: TileRef, dst: TileRef) -> spec_fn(TileRef) -> bool {
        |t: TileRef| self.within_reach(dst, t) || self.within_reach(src, t)
    }

    /// Silos of a player on a tile.
    pub open spec fn silo_on(sid: u16, tile: TileRef) -> spec_fn(Unit) -> bool {
        |u: Unit| u.owner == sid && u.unit_type == UnitType::MissileSilo && u.tile == tile
    }

    /// The game after the silo on `tile`, if there is one, launched a missile.
    pub open spec fn unloading(self, sid: u16, tile: TileRef) -> GameView {
        match crate::lists::first_where(self.units, GameView::silo_on(sid, tile)) {
            Some(u) => GameView {
                launches: self.launches.push(Launch { unit_id: u.id, tick: self.tick }),
                ..self
            },
            None => self,
        }
    }

    /// The game after a player built a nuke at `src` that is to fly over `tiles` to `dst`.
    pub open spec fn arming(
        self,
        sid: u16,
        nuke: UnitType,
        src: TileRef,
        dst: TileRef,
        tiles: Seq<TileRef>,
    ) -> GameView {
        let id = self.next_unit_id;
        let built = self.building(sid, nuke, src);
        let armed = match built.unit(sid, id) {
            Some(u) => built.with_unit(
                sid,
                id,
                Unit { target_tile: Some(dst), targetable: true, ..u },
            ),
            None => built,
        };
        GameView {
            flights: armed.flights.push(
                FlightView {
                    unit_id: id,
                    tiles,
                    targetable: tiles.map_values(self.exposed(src, dst)),
                },
            ),
            ..armed
        }
    }

    /// The game after a missile flew on to `tile`, its path's point `index`.
    pub open spec fn flying(self, sid: u16, id: i32, tile: TileRef, index: u32) -> GameView {
        match self.unit(sid, id) {
            Some(u) => self.with_unit(
                sid,
                id,
                Unit {
                    tile,
                    trajectory_index: index,
                    targetable: match u.target_tile {
                        Some(target) => self.within_reach(target, u.tile),
                        None => u.targetable,
                    },
                    ..u
                },
            ),
            None => self,
        }
    }
}

impl NukeExecution {
    /// What the execution was created with.
    pub open spec fn order(&self) -> Order {
        Order::Nuke {
            nuke_type: self.nuke_type,
            owner: self.owner_small_id,
            dst: self.dst,
            src: self.src,
            speed: self.speed,
            wait_ticks: self.wait_ticks,
            rocket_direction_up: self.rocket_direction_up,
        }
    }

    pub fn new(
        nuke_type: UnitType,
        owner_small_id: u16,
        dst: TileRef,
        src: Option<TileRef>,
        speed: Option<u32>,
        wait_ticks: u32,
        rocket_direction_up: bool,
    ) -> (execution: Self)
        ensures
            execution.nuke_type == nuke_type,
            execution.owner_small_id == owner_small_id,
            execution.dst == dst,
            execution.src == src,
            execution.speed == speed,
            execution.wait_ticks == wait_ticks,
            execution.rocket_direction_up == rocket_direction_up,
            execution.active,
            execution.nuke_unit_id is None,
            execution.curve is None,
            execution.tiles_to_destroy is None,
    {
        NukeExecution {
            nuke_type,
            owner_small_id,
            dst,
            src,
            speed,
            wait_ticks,
            rocket_direction_up,
            active: true,
            nuke_unit_id: None,
            curve: None,
            tiles_to_destroy: None,
        }
    }

    /// Whether the arc grows with the distance: warheads fall straight.
    pub open spec fn high(&self) -> bool {
        self.nuke_type != UnitType::MirvWarhead
    }

    pub open spec fn pace(&self, game: GameView) -> u32 {
        match self.speed {
            Some(speed) => speed,
            None => game.config.nuke_speed,
        }
    }

    /// The path of the nuke from where it was launched.
    pub open spec fn route(&self, game: GameView) -> Seq<Pt> {
        match self.curve {
            Some(curve) => curve.points@,
            None => game.map.arc(
                self.src->0,
                self.dst,
                self.high(),
                self.rocket_direction_up,
            ).path(self.pace(game) * TILE_UNITS),
        }
    }

    /// How far the nuke has flown after one more tick of flight.
    pub open spec fn next_distance(&self, game: GameView) -> int {
        let flown = match self.curve {
            Some(curve) => curve.total_distance as int,
            None => 0int,
        };
        let total = flown + self.pace(game) * TILE_UNITS;
        if total > u64::MAX {
            u64::MAX as int
        } else {
            total
        }
    }

    /// The point of its path that the nuke is at after one more tick of flight.
    pub open spec fn next_index(&self, game: GameView) -> int {
        let at = match self.curve {
            Some(curve) => curve.current_index as int,
            None => 0int,
        };
        crate::parabola::passed(self.route(game), at, self.next_distance(game))
    }

    /// Whether a path is the nuke's after one more tick of flight.
    pub open spec fn flies_on(&self, game: GameView, curve: Option<Curve>) -> bool {
        &&& curve is Some
        &&& curve->0.points@ == self.route(game)
        &&& curve->0.current_index == self.next_index(game)
        &&& curve->0.total_distance == self.next_distance(game)
    }

    /// The nuke after a tick on which it is launched or gives up.
    pub open spec fn launched(&self, game: GameView) -> NukeExecution {
        if self.launches(game) {
            NukeExecution {
                src: game.launch_site(self.owner_small_id, self.nuke_type, self.dst),
                nuke_unit_id: Some(game.next_unit_id),
                ..*self
            }
        } else {
            NukeExecution { active: false, ..*self }
        }
    }

    /// The nuke after a tick of flight with a path, which may be its last.
    pub open spec fn proceeded(&self, game: GameView, curve: Option<Curve>) -> NukeExecution {
        if self.arrives(game) {
            NukeExecution {
                active: false,
                nuke_unit_id: None,
                tiles_to_destroy: None,
                curve,
                ..*self
            }
        } else {
            NukeExecution { curve, ..*self }
        }
    }

    /// Whether the nuke reaches its target with one more tick of flight.
    pub open spec fn arrives(&self, game: GameView) -> bool {
        self.next_index(game) >= self.route(game).len() - 1
    }

    /// Whether the nuke goes off on this tick.
    pub open spec fn goes_off(&self, game: GameView) -> bool {
        self.active && self.nuke_unit_id is Some && game.unit(
            self.owner_small_id,
            self.nuke_unit_id->0,
        ) is Some && self.wait_ticks == 0 && self.arrives(game)
    }

    /// The tiles that the nuke destroys.
    pub open spec fn doomed(&self, game: GameView) -> Seq<TileRef> {
        match self.tiles_to_destroy {
            Some(tiles) => tiles@,
            None => crate::game_blast::crater(
                game.map,
                self.dst,
                game.config.magnitude(self.nuke_type),
                game.tick,
            ),
        }
    }

    /// Whether the nuke is launched on this tick.
    pub open spec fn launches(&self, game: GameView) -> bool {
        match game.launch_site(self.owner_small_id, self.nuke_type, self.dst) {
            Some(src) => !game.blocked(
                src,
                self.dst,
                self.pace(game) as int,
                self.high(),
                self.rocket_direction_up,
            ),
            None => false,
        }
    }

    /// The game after the nuke was launched, where it could be.
    pub open spec fn launching(&self, game: GameView) -> GameView {
        let sid = self.owner_small_id;
        if !self.launches(game) {
            game
        } else {
            let src = game.launch_site(sid, self.nuke_type, self.dst)->0;
            let tiles = game.map.flight(
                src,
                self.dst,
                self.pace(game) as int,
                self.high(),
                self.rocket_direction_up,
            );
            game.arming(sid, self.nuke_type, src, self.dst, tiles).estranging(
                sid,
                self.dst,
                self.nuke_type,
            ).unloading(sid, src)
        }
    }

    /// The game after the nuke went off.
    pub open spec fn detonating(&self, game: GameView) -> GameView {
        let after = game.exploding(
            self.nuke_type,
            self.dst,
            self.doomed(game),
            self.owner_small_id,
        );
        match self.nuke_unit_id {
            Some(id) => after.without_unit(self.owner_small_id, id),
            None => after,
        }
    }

    /// The game after the nuke flew for a tick, which may be its last.
    pub open spec fn proceeding(&self, game: GameView) -> GameView {
        if self.arrives(game) {
            self.detonating(game)
        } else {
            game.flying(
                self.owner_small_id,
                self.nuke_unit_id->0,
                game.map.tile_of(self.route(game)[self.next_index(game)]),
                self.next_index(game) as u32,
            )
        }
    }
}

/// Whether the missile's tiles are free of impassable land.
fn any_impassable(game: &Game, tiles: &Vec<TileRef>) -> (any: bool)
    requires
        forall|i: int| 0 <= i < tiles@.len() ==> game@.map.valid(#[trigger] tiles@[i]),
    ensures
        any == exists|i: int| 0 <= i < tiles@.len() && game@.map.is_impassable(#[trigger] tiles@[i]),
{
    for i in 0..tiles.len()
        invariant
            forall|k: int| 0 <= k < tiles@.len() ==> game@.map.valid(#[trigger] tiles@[k]),
            forall|k: int| 0 <= k < i ==> !game@.map.is_impassable(#[trigger] tiles@[k]),
    {
        if game.map.is_impassable(tiles[i]) {
            assert(game@.map.is_impassable(tiles@[i as int]));
            return true;
        }
    }
    false
}

/// Whether a missile would fly over impassable land.
pub fn is_path_blocked(game: &Game, src: TileRef, dst: TileRef, speed: u32, high: bool, up: bool) -> (
    blocked: bool)
    requires
        game@.wf(),
        game@.map.valid(src),
        game@.map.valid(dst),
    ensures
        blocked == game@.blocked(src, dst, speed as int, high, up),
{
    let tiles = find_path_tiles(&game.map, src, dst, speed, high, up);
    any_impassable(game, &tiles)
}

/// Whether a silo has no missile ready.
pub fn unit_is_in_cooldown(game: &Game, u: Unit) -> (cooling: bool)
    requires
        u.wf(),
    ensures
        cooling == game@.in_cooldown(u),
{
    game.launches_of_unit(u.id).len() >= u.level as usize
}

/// The tiles of the silos of a player that can launch, oldest first.
pub fn ready_silo_tiles(game: &Game, sid: u16) -> (tiles: Vec<TileRef>)
    requires
        game@.wf(),
    ensures
        tiles@ == game@.ready_silos(sid),
        forall|i: int| 0 <= i < tiles@.len() ==> game@.map.valid(#[trigger] tiles@[i]),
{
    let ghost p = game@.ready_silo(sid);
    let ghost f = |u: Unit| u.tile;
    let mut tiles: Vec<TileRef> = Vec::new();
    assert(game.units@.take(0).filter(p).map_values(f) =~= Seq::empty()) by {
        reveal(Seq::filter);
    }
    for i in 0..game.units.len()
        invariant
            game@.wf(),
            p == game@.ready_silo(sid),
            f == (|u: Unit| u.tile),
            tiles@ == game.units@.take(i as int).filter(p).map_values(f),
            forall|k: int| 0 <= k < tiles@.len() ==> game@.map.valid(#[trigger] tiles@[k]),
    {
        let u: Unit = game.units[i];
        let ghost held = game.units@.take(i as int).filter(p);
        proof {
            crate::lists::lemma_filter_step(game.units@, p, i as int);
            assert(game@.units[i as int] == u);
        }
        if u.owner == sid && u.unit_type == UnitType::MissileSilo && !u.under_construction
            && !unit_is_in_cooldown(game, u) {
            tiles.push(u.tile);
            assert(held.push(u).map_values(f) =~= held.map_values(f).push(f(u)));
        }
    }
    proof {
        crate::lists::lemma_take_all(game.units@);
    }
    tiles
}

/// Whether a nuke would hit a structure of a team mate.
fn would_hit_teammate(game: &Game, sid: u16, dst: TileRef, nuke: UnitType) -> (hits: bool)
    requires
        game@.wf(),
        game@.map.valid(dst),
    ensures
        hits == game@.endangers(sid, dst, nuke),
{
    let outer: u32 = game.wire.nuke_magnitudes(nuke).outer;
    assert(outer * outer <= 1000 * 1000) by (nonlinear_arith)
        requires
            outer <= 1000,
    ;
    let outer2: u64 = outer as u64 * outer as u64;
    let ghost p = game@.standing_within(dst, outer as int);
    for i in 0..game.units.len()
        invariant
            game@.wf(),
            game@.map.valid(dst),
            outer2 == outer * outer,
            outer == game@.config.magnitude(nuke).outer,
            p == game@.standing_within(dst, outer as int),
            forall|k: int|
                0 <= k < i ==> !(p(#[trigger] game@.units[k]) && game@.units[k].owner != 0
                    && game@.on_same_team(sid, game@.units[k].owner)),
    {
        let u: Unit = game.units[i];
        assert(game@.units[i as int] == u);
        if u.unit_type.is_structure() && game.map.euclidean_dist_squared(dst, u.tile) <= outer2
            && u.owner != 0 && game.players_on_same_team(sid, u.owner) {
            assert(p(game@.units[i as int]));
            return true;
        }
    }
    false
}

/// The silo from which a player would launch a nuke.
fn nuke_spawn(game: &Game, owner_small_id: u16, nuke_type: UnitType, dst: TileRef) -> (src: Option<
    TileRef,
>)
    requires
        game@.wf(),
        game@.map.valid(dst),
    ensures
        src == game@.nuke_source(owner_small_id, nuke_type, dst),
        src is Some ==> game@.map.valid(src->0),
{
    if game.spawn_immunity {
        return None;
    }
    if game.map.is_impassable(dst) {
        return None;
    }
    let owner: u16 = game.map.owner_id(dst);
    let game_over = game.winner.is_some();
    if owner != 0 && game.players_on_same_team(owner_small_id, owner) && !game_over {
        return None;
    }
    if game.wire.game_mode == GameMode::Team && nuke_type != UnitType::Mirv && !game_over {
        if would_hit_teammate(game, owner_small_id, dst, nuke_type) {
            return None;
        }
    }
    if game.player_by_small_id(owner_small_id).is_none() {
        return None;
    }
    let tiles = ready_silo_tiles(game, owner_small_id);
    let (closest, _) = game.closest_tile(&tiles, dst);
    closest
}

/// The tile from which a player can launch a nuke at `dst`.
pub fn can_build_nuke(game: &Game, owner_small_id: u16, nuke_type: UnitType, dst: TileRef) -> (src:
    Option<TileRef>)
    requires
        game@.wf(),
        game@.map.valid(dst),
    ensures
        src == game@.launch_site(owner_small_id, nuke_type, dst),
        src is Some ==> game@.map.valid(src->0),
{
    if game.wire.is_unit_disabled(nuke_type) {
        return None;
    }
    let cost: i64 = game.structure_cost(owner_small_id, nuke_type);
    if game.player_by_small_id(owner_small_id).is_none() {
        return None;
    }
    if game.gold_of(owner_small_id) < cost {
        return None;
    }
    if nuke_type == UnitType::MirvWarhead {
        return Some(dst);
    }
    if game.tiles_of(owner_small_id) <= 0 {
        return None;
    }
    match nuke_type {
        UnitType::Mirv => {
            if game.map.owner_id(dst) == 0 {
                return None;
            }
        },
        UnitType::AtomBomb | UnitType::HydrogenBomb => {},
        _ => {
            return None;
        },
    }
    match nuke_spawn(game, owner_small_id, nuke_type, dst) {
        Some(src) => if is_path_blocked(game, src, dst, game.wire.nuke_speed, true, true) {
            None
        } else {
            Some(src)
        },
        None => None,
    }
}

/// Whether a nuke at `dst` would end an alliance with a player.
pub fn would_nuke_break_alliance(
    game: &Game,
    dst: TileRef,
    nuke_type: UnitType,
    ally_small_id: u16,
) -> (breaks: bool)
    requires
        game@.wf(),
        game@.map.valid(dst),
    ensures
        breaks == game@.struck(dst, nuke_type).contains(ally_small_id),
{
    let targets = game.list_nuke_break_alliance(dst, nuke_type);
    crate::lists::has_id(&targets, ally_small_id)
}

/// Whether a missile on a tile is near enough to `spot` to be shot down.
fn is_within_reach(game: &Game, spot: TileRef, tile: TileRef) -> (near: bool)
    requires
        game@.wf(),
        game@.map.valid(spot),
        game@.map.valid(tile),
    ensures
        near == game@.within_reach(spot, tile),
{
    let range: u32 = game.wire.nuke_targetable_range;
    assert(range * range <= 100_000 * 100_000) by (nonlinear_arith)
        requires
            range <= 100_000,
    ;
    game.map.euclidean_dist_squared(spot, tile) < range as u64 * range as u64
}

/// On which of its tiles a missile can be shot down.
fn targetable_tiles(game: &Game, src: TileRef, dst: TileRef, tiles: &Vec<TileRef>) -> (targetable: Vec<
    bool,
>)
    requires
        game@.wf(),
        game@.map.valid(src),
        game@.map.valid(dst),
        forall|i: int| 0 <= i < tiles@.len() ==> game@.map.valid(#[trigger] tiles@[i]),
    ensures
        targetable@ == tiles@.map_values(game@.exposed(src, dst)),
{
    let ghost f = game@.exposed(src, dst);
    let mut targetable: Vec<bool> = Vec::new();
    for i in 0..tiles.len()
        invariant
            game@.wf(),
            game@.map.valid(src),
            game@.map.valid(dst),
            f == game@.exposed(src, dst),
            forall|k: int| 0 <= k < tiles@.len() ==> game@.map.valid(#[trigger] tiles@[k]),
            targetable@ == tiles@.take(i as int).map_values(f),
    {
        let t: TileRef = tiles[i];
        targetable.push(is_within_reach(game, dst, t) || is_within_reach(game, src, t));
        assert(tiles@.take(i + 1).map_values(f) =~= tiles@.take(i as int).map_values(f).push(
            f(tiles@[i as int]),
        ));
    }
    proof {
        crate::lists::lemma_take_all(tiles@);
    }
    targetable
}

impl Game {
    /// Has the silo on a tile launch a missile.
    fn unload_silo(&mut self, sid: u16, tile: TileRef)
        requires
            old(self).wf(),
        ensures
            final(self).wf(),
            final(self)@ == old(self)@.unloading(sid, tile),
    {
        let accepts = |u: Unit| -> (silo: bool)
            ensures
                silo == (u.owner == sid && u.unit_type == UnitType::MissileSilo && u.tile == tile),
            { u.owner == sid && u.unit_type == UnitType::MissileSilo && u.tile == tile };
        match crate::lists::find_by(&self.units, accepts, Ghost(GameView::silo_on(sid, tile))) {
            Some(u) => {
                let tick: u32 = self.tick;
                self.launches.push(Launch { unit_id: u.id, tick });
            },
            None => {},
        }
    }

    /// Builds a nuke that is to fly over `tiles`.
    fn arm(
        &mut self,
        sid: u16,
        nuke: UnitType,
        src: TileRef,
        dst: TileRef,
        tiles: Vec<TileRef>,
    ) -> (id: i32)
        requires
            old(self).wf(),
            old(self)@.map.valid(src),
            old(self)@.map.valid(dst),
            forall|i: int| 0 <= i < tiles@.len() ==> old(self)@.map.valid(#[trigger] tiles@[i]),
        ensures
            final(self).wf(),
            final(self)@ == old(self)@.arming(sid, nuke, src, dst, tiles@),
            id == old(self)@.next_unit_id,
    {
        let targetable = targetable_tiles(self, src, dst, &tiles);
        let id: i32 = self.build_unit(sid, nuke, src);
        match self.unit(sid, id) {
            Some(u) => {
                let mut armed: Unit = u;
                armed.target_tile = Some(dst);
                armed.targetable = true;
                self.replace_unit(sid, id, armed);
            },
            None => {},
        }
        let flight = Flight { unit_id: id, tiles, targetable };
        let ghost before = self.flights@;
        self.flights.push(flight);
        assert(crate::game::flight_views(self.flights@) =~= crate::game::flight_views(before).push(
            flight@,
        ));
        id
    }

    /// Moves a missile on along its path.
    fn fly(&mut self, sid: u16, id: i32, tile: TileRef, index: u32)
        requires
            old(self).wf(),
            old(self)@.map.valid(tile),
        ensures
            final(self).wf(),
            final(self)@ == old(self)@.flying(sid, id, tile, index),
    {
        match self.unit(sid, id) {
            Some(u) => {
                let mut moved: Unit = u;
                moved.tile = tile;
                moved.trajectory_index = index;
                match u.target_tile {
                    Some(target) => {
                        moved.targetable = is_within_reach(self, target, u.tile);
                    },
                    None => {},
                }
                self.replace_unit(sid, id, moved);
            },
            None => {},
        }
    }
}

impl NukeExecution {
    /// Launches the nuke.
    fn spawn(&mut self, game: &mut Game)
        requires
            old(game).wf(),
            old(self).ready(old(game)@),
            old(self).active,
            old(self).nuke_unit_id is None,
        ensures
            final(game).wf(),
            final(game)@ == old(self).launching(old(game)@),
            final(self).ready(final(game)@),
            *final(self) == old(self).launched(old(game)@),
    {
        let src: TileRef = match can_build_nuke(
            game,
            self.owner_small_id,
            self.nuke_type,
            self.dst,
        ) {
            Some(src) => src,
            None => {
                self.active = false;
                return;
            },
        };
        let speed: u32 = match self.speed {
            Some(speed) => speed,
            None => game.wire.nuke_speed,
        };
        let high = self.nuke_type != UnitType::MirvWarhead;
        let tiles = find_path_tiles(
            &game.map,
            src,
            self.dst,
            speed,
            high,
            self.rocket_direction_up,
        );
        if any_impassable(game, &tiles) {
            self.active = false;
            return;
        }
        self.src = Some(src);
        let id: i32 = game.arm(self.owner_small_id, self.nuke_type, src, self.dst, tiles);
        self.nuke_unit_id = Some(id);
        let ghost armed = game@;
        game.maybe_break_alliances(self.owner_small_id, self.dst, self.nuke_type);
        proof {
            armed.lemma_estranging(self.owner_small_id, self.dst, self.nuke_type);
        }
        game.unload_silo(self.owner_small_id, src);
    }

    /// Sets the nuke off.
    fn detonate(&mut self, game: &mut Game)
        requires
            old(game).wf(),
            old(self).ready(old(game)@),
        ensures
            final(game).wf(),
            final(game)@ == old(self).detonating(old(game)@),
            final(self).ready(final(game)@),
            *final(self) == (NukeExecution {
                active: false,
                nuke_unit_id: None,
                tiles_to_destroy: None,
                ..*old(self)
            }),
    {
        proof {
            game@.map.lemma_len();
        }
        let tick: u32 = game.tick;
        let ghost start = game@;
        let cache: Option<Vec<TileRef>> = self.tiles_to_destroy.take();
        let tiles: Vec<TileRef> = match cache {
            Some(tiles) => tiles,
            None => crater_tiles(
                &game.map,
                self.dst,
                game.wire.nuke_magnitudes(self.nuke_type),
                tick,
            ),
        };
        game.explode(self.nuke_type, self.dst, &tiles, self.owner_small_id);
        proof {
            start.lemma_exploding(self.nuke_type, self.dst, tiles@, self.owner_small_id);
        }
        self.active = false;
        match self.nuke_unit_id {
            Some(id) => {
                game.remove_unit(self.owner_small_id, id);
            },
            None => {},
        }
        self.nuke_unit_id = None;
    }
}

impl Execution for NukeExecution {
    open spec fn ready(&self, game: GameView) -> bool {
        &&& game.map.valid(self.dst)
        &&& self.src is Some ==> game.map.valid(self.src->0)
        &&& self.speed is Some ==> self.speed->0 <= MAX_SPEED
        &&& self.nuke_unit_id is Some ==> self.src is Some
        &&& self.curve is Some ==> self.curve->0.wf() && forall|i: int|
            0 <= i < self.curve->0.points@.len() ==> game.map.holds_point(
                #[trigger] self.curve->0.points@[i],
            )
        &&& self.tiles_to_destroy is Some ==> self.tiles_to_destroy->0@.len() <= 0xffff_ffff
            && forall|i: int|
            0 <= i < self.tiles_to_destroy->0@.len() ==> game.map.valid(
                #[trigger] self.tiles_to_destroy->0@[i],
            )
    }

    /// Where nukes turn land to water, the engine works out which before one goes off.
    open spec fn equipped(&self, game: GameView) -> bool {
        game.config.water_nukes && self.goes_off(game) ==> self.tiles_to_destroy is Some
    }

    open spec fn begun(&self, game: GameView, tick: u32) -> GameView {
        game
    }

    open spec fn ticked(&self, game: GameView, tick: u32) -> GameView {
        if !self.active {
            game
        } else {
            match self.nuke_unit_id {
                None => self.launching(game),
                Some(id) => if game.unit(self.owner_small_id, id) is None || self.wait_ticks > 0 {
                    game
                } else {
                    self.proceeding(game)
                },
            }
        }
    }

    open spec fn begun_as(&self, game: GameView, tick: u32, next: Self) -> bool {
        next == (NukeExecution { speed: Some(self.pace(game)), ..*self })
    }

    open spec fn ticked_as(&self, game: GameView, tick: u32, next: Self) -> bool {
        if !self.active {
            next == *self
        } else {
            match self.nuke_unit_id {
                None => next == self.launched(game),
                Some(id) => if game.unit(self.owner_small_id, id) is None {
                    next == (NukeExecution { active: false, ..*self })
                } else if self.wait_ticks > 0 {
                    next == (NukeExecution { wait_ticks: (self.wait_ticks - 1) as u32, ..*self })
                } else {
                    self.flies_on(game, next.curve) && next == self.proceeded(game, next.curve)
                },
            }
        }
    }

    open spec fn going(&self) -> bool {
        self.active
    }

    fn init(&mut self, game: &mut Game, tick: u32) {
        if self.speed.is_none() {
            self.speed = Some(game.wire.nuke_speed);
        }
    }

    fn tick(&mut self, game: &mut Game, tick: u32) {
        if !self.active {
            return;
        }
        let id: i32 = match self.nuke_unit_id {
            Some(id) => id,
            None => {
                self.spawn(game);
                return;
            },
        };
        if !game.unit_exists(self.owner_small_id, id) {
            self.active = false;
            return;
        }
        if self.wait_ticks > 0 {
            self.wait_ticks = self.wait_ticks - 1;
            return;
        }
        self.proceed(game, id);
    }

    fn is_active(&self) -> (active: bool) {
        self.active
    }
}

impl NukeExecution {
    /// Whether the nuke goes off on this tick.
    pub fn is_about_to_go_off(&self, game: &Game) -> (goes_off: bool)
        requires
            game.wf(),
            self.ready(game@),
        ensures
            goes_off == self.goes_off(game@),
    {
        let id: i32 = match self.nuke_unit_id {
            Some(id) => id,
            None => return false,
        };
        if !self.active || !game.unit_exists(self.owner_small_id, id) || self.wait_ticks > 0 {
            return false;
        }
        let speed: u32 = match self.speed {
            Some(speed) => speed,
            None => game.wire.nuke_speed,
        };
        let distance: u64 = speed as u64 * TILE_UNITS as u64;
        match &self.curve {
            Some(curve) => curve.index_after(distance) >= curve.points.len() - 1,
            None => {
                proof {
                    game@.map.lemma_place(self.dst);
                }
                let src: TileRef = match self.src {
                    Some(src) => src,
                    None => self.dst,
                };
                let curve = create_curve(
                    &game.map,
                    src,
                    self.dst,
                    speed,
                    self.nuke_type != UnitType::MirvWarhead,
                    self.rocket_direction_up,
                );
                curve.index_after(distance) >= curve.points.len() - 1
            },
        }
    }

    /// Flies for a tick, and goes off at the end.
    fn proceed(&mut self, game: &mut Game, id: i32)
        requires
            old(game).wf(),
            old(self).ready(old(game)@),
            old(self).active,
            old(self).nuke_unit_id == Some(id),
            old(self).wait_ticks == 0,
        ensures
            final(game).wf(),
            final(game)@ == old(self).proceeding(old(game)@),
            final(self).ready(final(game)@),
            old(self).flies_on(old(game)@, final(self).curve),
            *final(self) == old(self).proceeded(old(game)@, final(self).curve),
    {
        let speed: u32 = match self.speed {
            Some(speed) => speed,
            None => game.wire.nuke_speed,
        };
        let src: TileRef = match self.src {
            Some(src) => src,
            None => self.dst,
        };
        let high = self.nuke_type != UnitType::MirvWarhead;
        proof {
            game@.map.lemma_place(self.dst);
        }
        let flown: Option<Curve> = self.curve.take();
        let mut curve: Curve = match flown {
            Some(curve) => curve,
            None => create_curve(
                &game.map,
                src,
                self.dst,
                speed,
                high,
                self.rocket_direction_up,
            ),
        };
        assert(curve.points@ == old(self).route(game@));
        let next = curve.increment(speed as u64 * TILE_UNITS as u64);
        let index: usize = curve.current_index();
        self.curve = Some(curve);
        match next {
            None => {
                assert(self.doomed(game@) == old(self).doomed(game@));
                self.detonate(game);
            },
            Some(p) => {
                assert(game@.map.holds_point(curve.points@[index as int]));
                let tile: TileRef = point_to_tile(&game.map, p);
                game.fly(self.owner_small_id, id, tile, index as u32);
            },
        }
    }
}

} // verus!
