//! What a nation builds: where it puts structures, which it upgrades, and how it fortifies
//! itself.

use vstd::prelude::*;

use crate::config::{Difficulty, GameMode};
use crate::construction::ConstructionExecution;
use crate::exec_enum::ExecEnum;
use crate::game::{Game, GameView};
use crate::ordered_tiles::TileRef;
use crate::orders::{Order, UpgradeStructureExecution};
use crate::prng::PseudoRandom;
use crate::state::{PlayerType, Unit};
use crate::structure_value::ReachableStation;
use crate::unit_type::UnitType;

verus! {

/// The places that a nation considers for a structure.
pub const SITE_SAMPLES: usize = 25;

pub const SAVE_UP_HYDROGEN_COUNT: i64 = 5;

pub const SAVE_UP_ATOM_COUNT: i64 = 20;

/// A nation that starts with this much gold first guards itself.
pub const HIGH_STARTING_GOLD_THRESHOLD: i64 = 3_000_000;

/// With more than one structure on this many tiles a nation upgrades.
pub const UPGRADE_DENSITY_TILES: i128 = 1500;

/// With more than one nation on this many land tiles the map is crowded.
pub const CROWDED_LAND_TILES: i64 = 7500;

/// A missile silo that is one of so many is the last.
pub const MAX_MISSILE_SILOS: i128 = 3;

/// How many structures of a kind a nation wants, in parts of ten thousand of its cities.
pub const RATIO_SCALE: i128 = 10_000;

/// What a nation builds besides cities, in this order.
pub open spec fn build_order() -> Seq<UnitType> {
    seq![UnitType::Port, UnitType::Factory, UnitType::SamLauncher, UnitType::MissileSilo]
}

/// How often, of a hundred times, a nation upgrades whatever it finds.
pub open spec fn careless_chance(difficulty: Difficulty) -> int {
    match difficulty {
        Difficulty::Easy => 70,
        Difficulty::Hard => 25,
        Difficulty::Impossible => 10,
        _ => 40,
    }
}

/// How many SAM launchers a nation wants for its cities.
pub open spec fn sam_ratio(difficulty: Difficulty) -> int {
    match difficulty {
        Difficulty::Easy => 1500,
        Difficulty::Hard => 2500,
        Difficulty::Impossible => 3000,
        _ => 2000,
    }
}

impl GameView {
    pub open spec fn can_place(self, sid: u16, unit_type: UnitType, t: TileRef) -> bool {
        self.site(sid, unit_type, t) is Some
    }

    /// The best of `tiles` for a structure, and its worth: of those where it can stand the
    /// first of the highest worth.
    pub open spec fn best_site(
        self,
        sid: u16,
        unit_type: UnitType,
        tiles: Seq<TileRef>,
        heeding: bool,
    ) -> (Option<TileRef>, int)
        decreases tiles.len(),
    {
        if tiles.len() == 0 {
            (None, 0)
        } else {
            let (best, value) = self.best_site(sid, unit_type, tiles.drop_last(), heeding);
            let t = tiles.last();
            let v = self.site_worth(sid, unit_type, t, heeding);
            if (best is None || v > value) && self.can_place(sid, unit_type, t) {
                (Some(t), v)
            } else {
                (best, value)
            }
        }
    }

    /// The tiles that a nation considers for a structure, and the random state after it
    /// chose them.
    pub open spec fn considered(self, rng: u64, sid: u16, unit_type: UnitType) -> (
        Seq<TileRef>,
        u64,
    ) {
        if unit_type == UnitType::Port {
            self.random_shores(rng, sid, SITE_SAMPLES as int)
        } else {
            self.random_tiles(rng, sid, SITE_SAMPLES as nat)
        }
    }

    /// The game once a nation has looked for the shores that it needs for a structure.
    pub open spec fn sounding(self, unit_type: UnitType) -> GameView {
        if unit_type == UnitType::Port {
            self.charting()
        } else {
            self
        }
    }

    /// Where a nation puts a structure, and the random state after that was decided.
    pub open spec fn chosen_site(self, rng: u64, sid: u16, unit_type: UnitType) -> (
        Option<TileRef>,
        u64,
    ) {
        let (tiles, picked) = self.considered(rng, sid, unit_type);
        if tiles.len() == 0 {
            (None, picked)
        } else {
            let (heeding, after) = self.judging(picked, unit_type);
            (self.best_site(sid, unit_type, tiles, heeding).0, after)
        }
    }

    /// The gold that a nation wants to keep together.
    pub open spec fn savings(self) -> int {
        if self.config.disabled(UnitType::MissileSilo) {
            self.config.sam_launcher_cost as int
        } else if self.config.game_mode == GameMode::Team {
            self.config.hydrogen_bomb_cost as int
        } else if !self.config.disabled(UnitType::Mirv) {
            self.config.mirv_cost + self.config.hydrogen_bomb_cost
        } else if !self.config.disabled(UnitType::HydrogenBomb) {
            self.config.hydrogen_bomb_cost * SAVE_UP_HYDROGEN_COUNT
        } else if !self.config.disabled(UnitType::AtomBomb) {
            self.config.atom_bomb_cost * SAVE_UP_ATOM_COUNT
        } else {
            self.config.sam_launcher_cost as int
        }
    }

    /// How many of a kind a player owns, with what it is building and all levels.
    pub open spec fn owned(self, sid: u16, unit_type: UnitType) -> int {
        crate::game_units::owned_sum(self.units_of(sid, unit_type))
    }

    /// What a structure seems to cost a nation: until its savings are together, more with
    /// each that it owns.
    pub open spec fn felt_cost(self, sid: u16, unit_type: UnitType) -> int {
        let cost = self.cost(sid, unit_type);
        if self.savings() == 0 || self.gold(sid) >= self.savings() {
            cost
        } else {
            cost * (1 + self.owned(sid, unit_type))
        }
    }

    /// Whether a player has so many structures that it upgrades them.
    pub open spec fn is_dense(self, sid: u16) -> bool {
        self.tiles_owned(sid) > 0 && self.structures_of(sid).len() * UPGRADE_DENSITY_TILES
            > self.tiles_owned(sid)
    }

    pub open spec fn is_nation(self) -> spec_fn(u16) -> bool {
        |id: u16| self.of_type(id, PlayerType::Nation)
    }

    pub open spec fn nations(self) -> nat {
        self.ids().filter(self.is_nation()).len()
    }

    /// Whether there are many nations for the land.
    pub open spec fn is_crowded(self) -> bool {
        self.nations() * CROWDED_LAND_TILES > self.land()
    }

    /// How many of a kind a nation wants for its cities, in parts of the ratio scale.
    pub open spec fn wanted_ratio(self, sid: u16, unit_type: UnitType, coastal: bool) -> int {
        match unit_type {
            UnitType::Port => 7500,
            UnitType::Factory => if coastal && !self.config.disabled(UnitType::Port) {
                2475
            } else {
                7500
            },
            UnitType::SamLauncher => sam_ratio(self.config.difficulty),
            UnitType::MissileSilo => if self.owned(sid, UnitType::MissileSilo) == 0 {
                4000
            } else {
                2000
            },
            _ => 0,
        }
    }

    /// Whether a nation with so many cities wants another structure of a kind.
    pub open spec fn wants(self, sid: u16, unit_type: UnitType, cities: int, coastal: bool) -> bool {
        let owned = self.owned(sid, unit_type);
        !(unit_type == UnitType::MissileSilo && owned >= MAX_MISSILE_SILOS) && owned < cities
            * self.wanted_ratio(sid, unit_type, coastal) / (RATIO_SCALE as int)
    }

    /// Structures of a kind that can be upgraded.
    pub open spec fn raisable(self, sid: u16) -> spec_fn(Unit) -> bool {
        |u: Unit| !u.under_construction && self.can_upgrade(sid, u.id)
    }

    /// How well SAM launchers guard a tile, in halves of a point: each in range counts ten
    /// points, and seven and a half for each level above the first.
    pub open spec fn sheltered(self, t: TileRef, sams: Seq<Unit>) -> int
        decreases sams.len(),
    {
        if sams.len() == 0 {
            0
        } else {
            self.sheltered(t, sams.drop_last()) + (if crate::config::within_sam_range(
                self.map.dist2(t, sams.last().tile),
                sams.last().level as int,
            ) {
                20 + (if sams.last().level > 1 {
                    15 * (sams.last().level - 1)
                } else {
                    0
                })
            } else {
                0
            })
        }
    }

    /// The structures to upgrade with their points, and the random state after those were
    /// drawn.
    pub open spec fn ranked(self, rng: u64, sid: u16, units: Seq<Unit>) -> (Seq<(i128, i32)>, u64)
        decreases units.len(),
    {
        if units.len() == 0 {
            (Seq::empty(), rng)
        } else {
            let (ranks, state) = self.ranked(rng, sid, units.drop_last());
            let points = self.sheltered(
                units.last().tile,
                self.units_of(sid, UnitType::SamLauncher),
            ) + 2 * crate::prng::int_drawn(state, 0, 5);
            (ranks.push((points as i128, units.last().id)), crate::prng::next_state(state))
        }
    }

    /// The structure of a kind that a nation upgrades, and the random state after it was
    /// found: now and then any, mostly the best guarded, sometimes the next best.
    pub open spec fn upgrade_choice(self, rng: u64, sid: u16, unit_type: UnitType) -> (
        Option<i32>,
        u64,
    ) {
        let units = self.units_of(sid, unit_type).filter(self.raisable(sid));
        if units.len() == 0 {
            (None, rng)
        } else if crate::prng::int_drawn(rng, 0, 100) < careless_chance(self.config.difficulty) {
            let (unit, after) = crate::prng::element_drawn(crate::prng::next_state(rng), units);
            (Some(unit->0.id), after)
        } else {
            let (ranks, ranked) = self.ranked(crate::prng::next_state(rng), sid, units);
            choice_of(ranked, crate::lists::sort_with(ranks, better_ranked()))
        }
    }
}

/// Structures with more points come first.
pub open spec fn better_ranked() -> spec_fn((i128, i32), (i128, i32)) -> bool {
    |a: (i128, i32), b: (i128, i32)| a.0 > b.0
}

/// One of the first of `ranks`, and the random state after it was chosen.
pub open spec fn choice_of(rng: u64, ranks: Seq<(i128, i32)>) -> (Option<i32>, u64) {
    if ranks.len() >= 2 {
        let after = crate::prng::next_state(rng);
        if !crate::prng::chance_drawn(rng, 2) {
            (Some(ranks[0].1), after)
        } else if ranks.len() >= 3 {
            (Some(ranks[crate::prng::int_drawn(after, 1, 3)].1), crate::prng::next_state(after))
        } else {
            (Some(ranks[1].1), after)
        }
    } else {
        (Some(ranks[0].1), rng)
    }
}

/// Whether a nation can put a structure of a kind at a tile.
pub fn can_build_structure(game: &Game, small_id: u16, unit_type: UnitType, tile: TileRef) -> (can:
    bool)
    requires
        game@.wf(),
        game@.map.valid(tile),
    ensures
        can == game@.can_place(small_id, unit_type, tile),
{
    crate::spawn_tiles::resolve_structure_spawn_tile(game, small_id, unit_type, tile).is_some()
}

/// The best of some tiles for a structure.
fn pick_site(game: &Game, small_id: u16, unit_type: UnitType, tiles: &Vec<TileRef>, heeding: bool) -> (
    site: Option<TileRef>)
    requires
        game@.wf(),
        forall|i: int| 0 <= i < tiles@.len() ==> game@.map.valid(#[trigger] tiles@[i]),
    ensures
        site == game@.best_site(small_id, unit_type, tiles@, heeding).0,
        site is Some ==> game@.map.valid(site->0),
{
    let connected: bool = heeding && (unit_type == UnitType::City || unit_type
        == UnitType::Factory);
    let stations: Vec<ReachableStation> = if connected {
        crate::structure_value::build_reachable_stations(game, small_id)
    } else {
        Vec::new()
    };
    let mut best: Option<TileRef> = None;
    let mut best_value: i128 = 0;
    assert(tiles@.take(0) =~= Seq::empty());
    for i in 0..tiles.len()
        invariant
            game@.wf(),
            forall|k: int| 0 <= k < tiles@.len() ==> game@.map.valid(#[trigger] tiles@[k]),
            connected == (heeding && (unit_type == UnitType::City || unit_type
                == UnitType::Factory)),
            connected ==> stations@ == game@.reachable(small_id),
            forall|k: int|
                0 <= k < stations@.len() ==> game@.map.valid((#[trigger] stations@[k]).tile) && 0
                    <= stations@[k].weight <= 1_000_000,
            (best, best_value as int) == game@.best_site(
                small_id,
                unit_type,
                tiles@.take(i as int),
                heeding,
            ),
            best is Some ==> game@.map.valid(best->0),
    {
        let t: TileRef = tiles[i];
        assert(game@.map.valid(tiles@[i as int]));
        assert(tiles@.take(i + 1).drop_last() =~= tiles@.take(i as int));
        let v: i128 = crate::structure_value::structure_value(
            game,
            small_id,
            unit_type,
            t,
            heeding,
            &stations,
        );
        if (best.is_none() || v > best_value) && can_build_structure(game, small_id, unit_type, t) {
            best = Some(t);
            best_value = v;
        }
    }
    proof {
        crate::lists::lemma_take_all(tiles@);
    }
    best
}

/// Where a nation puts a structure.
pub fn structure_spawn_tile(
    game: &mut Game,
    random: &mut PseudoRandom,
    small_id: u16,
    unit_type: UnitType,
) -> (site: Option<TileRef>)
    requires
        old(game).wf(),
    ensures
        final(game).wf(),
        final(game)@ == old(game)@.sounding(unit_type),
        (site, final(random).state) == final(game)@.chosen_site(
            old(random).state,
            small_id,
            unit_type,
        ),
        site is Some ==> final(game)@.map.valid(site->0),
{
    let tiles: Vec<TileRef> = if unit_type == UnitType::Port {
        crate::shared_water::rand_coastal_tile_array(game, random, small_id, SITE_SAMPLES)
    } else {
        crate::territory::rand_territory_tile_array(game, random, small_id, SITE_SAMPLES)
    };
    if tiles.len() == 0 {
        return None;
    }
    let heeding: bool = crate::structure_value::judge(game, random, unit_type);
    pick_site(game, small_id, unit_type, &tiles, heeding)
}

/// The gold that a nation wants to keep together.
pub fn save_up_target(game: &Game) -> (gold: i64)
    requires
        game@.wf(),
    ensures
        gold == game@.savings(),
        gold >= 0,
{
    if game.wire.is_unit_disabled(UnitType::MissileSilo) {
        return game.wire.sam_launcher_cost;
    }
    if game.wire.game_mode == GameMode::Team {
        return game.wire.hydrogen_bomb_cost;
    }
    if !game.wire.is_unit_disabled(UnitType::Mirv) {
        return game.wire.mirv_cost + game.wire.hydrogen_bomb_cost;
    }
    if !game.wire.is_unit_disabled(UnitType::HydrogenBomb) {
        return game.wire.hydrogen_bomb_cost * SAVE_UP_HYDROGEN_COUNT;
    }
    if !game.wire.is_unit_disabled(UnitType::AtomBomb) {
        return game.wire.atom_bomb_cost * SAVE_UP_ATOM_COUNT;
    }
    game.wire.sam_launcher_cost
}

/// What a structure seems to cost a nation.
pub fn perceived_structure_cost(game: &Game, small_id: u16, unit_type: UnitType) -> (cost: u128)
    requires
        game@.wf(),
    ensures
        cost == game@.felt_cost(small_id, unit_type),
{
    let owned: i128 = game.units_owned_count(small_id, unit_type);
    let price: i64 = game.structure_cost(small_id, unit_type);
    let save_up: i64 = save_up_target(game);
    if save_up == 0 || game.gold_of(small_id) >= save_up {
        return price as u128;
    }
    assert(game.units.len() <= 0xffff_ffff_ffff_ffff);
    assert(0 <= price * (1 + owned) <= 1_000_000_000_000_000 * (1 + 10_000
        * 0xffff_ffff_ffff_ffff)) by (nonlinear_arith)
        requires
            0 <= price <= 1_000_000_000_000_000,
            0 <= owned <= 10_000 * 0xffff_ffff_ffff_ffff,
    ;
    price as u128 * (1 + owned as u128)
}

/// Whether a player has so many structures for its land that it upgrades them.
pub fn is_densely_built(game: &Game, small_id: u16) -> (dense: bool)
    requires
        game@.wf(),
    ensures
        dense == game@.is_dense(small_id),
{
    let tiles: i64 = game.tiles_of(small_id);
    if tiles <= 0 {
        return false;
    }
    let structures = game.structures_of_player(small_id);
    assert(structures.len() <= 0xffff_ffff_ffff_ffff);
    structures.len() as i128 * UPGRADE_DENSITY_TILES > tiles as i128
}

fn nation_count(game: &Game) -> (n: usize)
    requires
        game@.wf(),
    ensures
        n == game@.nations(),
        n <= 65_535,
{
    let ids = game.player_ids();
    let accepts = |id: u16| -> (nation: bool)
        ensures
            nation == game@.is_nation()(id),
        { game.is_of_type(id, PlayerType::Nation) };
    crate::lists::filter_by(&ids, accepts, Ghost(game@.is_nation())).len()
}

/// Whether there are many nations for the land.
pub fn is_high_nation_density(game: &Game) -> (crowded: bool)
    requires
        game@.wf(),
    ensures
        crowded == (game@.land() > 0 && game@.is_crowded()),
{
    let land: u32 = game.num_land_tiles();
    if land == 0 {
        return false;
    }
    nation_count(game) as i64 * CROWDED_LAND_TILES > land as i64
}

/// Whether a nation with so many cities wants another structure of a kind.
pub fn should_build_structure(
    game: &Game,
    small_id: u16,
    unit_type: UnitType,
    city_count: i128,
    has_coastal: bool,
) -> (wants: bool)
    requires
        game@.wf(),
        0 <= city_count <= 10_000 * 0xffff_ffff_ffff_ffff,
    ensures
        wants == game@.wants(small_id, unit_type, city_count as int, has_coastal),
{
    let owned: i128 = game.units_owned_count(small_id, unit_type);
    let ratio: i128 = match unit_type {
        UnitType::Port => 7500,
        UnitType::Factory => if has_coastal && !game.wire.is_unit_disabled(UnitType::Port) {
            2475
        } else {
            7500
        },
        UnitType::SamLauncher => match game.wire.difficulty {
            Difficulty::Easy => 1500,
            Difficulty::Hard => 2500,
            Difficulty::Impossible => 3000,
            _ => 2000,
        },
        UnitType::MissileSilo => if owned == 0 {
            4000
        } else {
            2000
        },
        _ => 0,
    };
    if unit_type == UnitType::MissileSilo && owned >= MAX_MISSILE_SILOS {
        return false;
    }
    assert(0 <= city_count * ratio <= 10_000 * 0xffff_ffff_ffff_ffff * 10_000) by (nonlinear_arith)
        requires
            0 <= city_count <= 10_000 * 0xffff_ffff_ffff_ffff,
            0 <= ratio <= 10_000,
    ;
    owned < city_count * ratio / RATIO_SCALE
}

/// How well SAM launchers guard a tile, in halves of a point.
fn guard_points(game: &Game, t: TileRef, sams: &Vec<Unit>) -> (points: i128)
    requires
        game@.wf(),
        game@.map.valid(t),
        forall|i: int|
            0 <= i < sams@.len() ==> (#[trigger] sams@[i]).wf() && game@.map.valid(sams@[i].tile),
    ensures
        points == game@.sheltered(t, sams@),
        0 <= points <= 200_000 * sams@.len(),
{
    let mut points: i128 = 0;
    assert(sams.len() <= 0xffff_ffff_ffff_ffff);
    assert(sams@.take(0) =~= Seq::empty());
    for i in 0..sams.len()
        invariant
            game@.wf(),
            game@.map.valid(t),
            sams@.len() <= 0xffff_ffff_ffff_ffff,
            forall|k: int|
                0 <= k < sams@.len() ==> (#[trigger] sams@[k]).wf() && game@.map.valid(
                    sams@[k].tile,
                ),
            points == game@.sheltered(t, sams@.take(i as int)),
            0 <= points <= 200_000 * i,
    {
        assert(sams@.take(i + 1).drop_last() =~= sams@.take(i as int));
        let u: Unit = sams[i];
        assert(sams@[i as int] == u);
        if crate::config::is_within_sam_range(
            game.map.euclidean_dist_squared(t, u.tile),
            u.level,
        ) {
            points = points + 20;
            if u.level > 1 {
                points = points + 15 * (u.level as i128 - 1);
            }
        }
    }
    proof {
        crate::lists::lemma_take_all(sams@);
    }
    points
}

/// The structures to upgrade with their points.
fn rank_structures(game: &Game, random: &mut PseudoRandom, small_id: u16, units: &Vec<Unit>) -> (
    ranks: Vec<(i128, i32)>)
    requires
        game@.wf(),
        forall|i: int|
            0 <= i < units@.len() ==> (#[trigger] units@[i]).wf() && game@.map.valid(
                units@[i].tile,
            ),
    ensures
        (ranks@, final(random).state) == game@.ranked(old(random).state, small_id, units@),
        ranks@.len() == units@.len(),
{
    let sams = game.units_of_type(small_id, UnitType::SamLauncher);
    let ghost start = random.state;
    let mut ranks: Vec<(i128, i32)> = Vec::new();
    assert(units@.take(0) =~= Seq::empty());
    assert(sams.len() <= 0xffff_ffff_ffff_ffff);
    for i in 0..units.len()
        invariant
            game@.wf(),
            sams@ == game@.units_of(small_id, UnitType::SamLauncher),
            sams@.len() <= 0xffff_ffff_ffff_ffff,
            forall|k: int|
                0 <= k < sams@.len() ==> (#[trigger] sams@[k]).wf() && game@.map.valid(
                    sams@[k].tile,
                ),
            forall|k: int|
                0 <= k < units@.len() ==> (#[trigger] units@[k]).wf() && game@.map.valid(
                    units@[k].tile,
                ),
            (ranks@, random.state) == game@.ranked(start, small_id, units@.take(i as int)),
            ranks@.len() == i,
    {
        assert(units@.take(i + 1).drop_last() =~= units@.take(i as int));
        let u: Unit = units[i];
        assert(units@[i as int] == u);
        let points: i128 = guard_points(game, u.tile, &sams) + 2 * random.next_int(0, 5) as i128;
        ranks.push((points, u.id));
    }
    proof {
        crate::lists::lemma_take_all(units@);
    }
    ranks
}

/// The structure of a kind that a nation upgrades.
pub fn find_best_structure_to_upgrade(
    game: &Game,
    random: &mut PseudoRandom,
    small_id: u16,
    unit_type: UnitType,
) -> (unit_id: Option<i32>)
    requires
        game@.wf(),
    ensures
        (unit_id, final(random).state) == game@.upgrade_choice(
            old(random).state,
            small_id,
            unit_type,
        ),
{
    let all = game.units_of_type(small_id, unit_type);
    let accepts = |u: Unit| -> (can: bool)
        ensures
            can == game@.raisable(small_id)(u),
        { !u.under_construction && crate::nuke_volley::can_upgrade_unit(game, small_id, u.id) };
    let units = crate::lists::filter_by(&all, accepts, Ghost(game@.raisable(small_id)));
    if units.len() == 0 {
        return None;
    }
    let chance: i32 = match game.wire.difficulty {
        Difficulty::Easy => 70,
        Difficulty::Hard => 25,
        Difficulty::Impossible => 10,
        _ => 40,
    };
    if random.next_int(0, 100) < chance {
        return match random.rand_element(units.as_slice()) {
            Some(u) => Some(u.id),
            None => None,
        };
    }
    assert forall|i: int| 0 <= i < units@.len() implies (#[trigger] units@[i]).wf()
        && game@.map.valid(units@[i].tile) by {
        assert(all@.contains(units@[i]));
    }
    let ranks = rank_structures(game, random, small_id, &units);
    let before = |a: (i128, i32), b: (i128, i32)| -> (first: bool)
        ensures
            first == better_ranked()(a, b),
        { a.0 > b.0 };
    let sorted = crate::lists::sort_by(&ranks, before, Ghost(better_ranked()));
    proof {
        crate::lists::lemma_sort_with_len(ranks@, better_ranked());
    }
    if sorted.len() >= 2 && random.chance(2) {
        let pick: usize = if sorted.len() >= 3 {
            random.next_int(1, 3) as usize
        } else {
            1
        };
        return Some(sorted[pick].1);
    }
    Some(sorted[0].1)
}

impl GameView {
    /// The game after a nation may have ordered an upgrade, whether it did, and the random
    /// state after that.
    pub open spec fn upgrading(self, rng: u64, sid: u16, unit_type: UnitType) -> (
        GameView,
        u64,
        bool,
    ) {
        if !self.is_dense(sid) {
            (self, rng, false)
        } else {
            let (choice, after) = self.upgrade_choice(rng, sid, unit_type);
            match choice {
                Some(id) => (
                    self.ordering(Order::UpgradeStructure { small_id: sid, unit_id: id }),
                    after,
                    true,
                ),
                None => (self, after, false),
            }
        }
    }

    /// The game after a nation may have ordered a new structure.
    pub open spec fn founding(self, rng: u64, sid: u16, unit_type: UnitType) -> (
        GameView,
        u64,
        bool,
    ) {
        let game = self.sounding(unit_type);
        let (site, after) = game.chosen_site(rng, sid, unit_type);
        match site {
            Some(tile) => if game.can_place(sid, unit_type, tile) {
                (
                    game.ordering(
                        Order::Construction {
                            small_id: sid,
                            unit_type,
                            tile,
                            rocket_direction_up: true,
                        },
                    ),
                    after,
                    true,
                )
            } else {
                (game, after, false)
            },
            None => (game, after, false),
        }
    }

    /// The game after a nation may have ordered a structure of a kind: an upgrade where it
    /// has many already, else a new one.
    pub open spec fn developing(self, rng: u64, sid: u16, unit_type: UnitType) -> (
        GameView,
        u64,
        bool,
    ) {
        if self.config.disabled(unit_type) || !self.has(sid) || self.gold(sid) < self.felt_cost(
            sid,
            unit_type,
        ) {
            (self, rng, false)
        } else if self.is_dense(sid) && unit_type.upgradable() {
            let (game, after, done) = self.upgrading(rng, sid, unit_type);
            if done || self.units_of(sid, unit_type).len() > 0 {
                (game, after, done)
            } else {
                self.founding(after, sid, unit_type)
            }
        } else {
            self.founding(rng, sid, unit_type)
        }
    }

    /// Kinds that a nation does not think of: ports without a coast, and what serves nukes
    /// where there are none.
    pub open spec fn pointless(self, unit_type: UnitType, coastal: bool) -> bool {
        let nukes = !self.config.disabled(UnitType::AtomBomb) || !self.config.disabled(
            UnitType::HydrogenBomb,
        ) || !self.config.disabled(UnitType::Mirv);
        ||| self.config.disabled(unit_type)
        ||| unit_type == UnitType::Port && !coastal
        ||| !nukes && (unit_type == UnitType::MissileSilo || unit_type == UnitType::SamLauncher)
        ||| self.config.disabled(UnitType::MissileSilo) && unit_type == UnitType::SamLauncher
    }

    /// The game after a nation went through `kinds` and ordered the first structure that it
    /// wants and can have.
    pub open spec fn balancing(
        self,
        rng: u64,
        sid: u16,
        kinds: Seq<UnitType>,
        cities: int,
        coastal: bool,
    ) -> (GameView, u64, bool)
        decreases kinds.len(),
    {
        if kinds.len() == 0 {
            (self, rng, false)
        } else if self.pointless(kinds[0], coastal) || !self.wants(sid, kinds[0], cities, coastal) {
            self.balancing(rng, sid, kinds.skip(1), cities, coastal)
        } else {
            let (game, after, done) = self.developing(rng, sid, kinds[0]);
            if done {
                (game, after, true)
            } else {
                game.balancing(after, sid, kinds.skip(1), cities, coastal)
            }
        }
    }

    /// Whether a nation starts with a SAM launcher.
    pub open spec fn guards_first(self, placements: int) -> bool {
        &&& placements == 0
        &&& self.config.difficulty == Difficulty::Hard || self.config.difficulty
            == Difficulty::Impossible
        &&& !self.config.disabled(UnitType::AtomBomb)
        &&& !self.config.disabled(UnitType::MissileSilo)
        &&& !self.config.disabled(UnitType::SamLauncher)
        &&& self.config.starting_gold_nation >= HIGH_STARTING_GOLD_THRESHOLD
    }

    /// The cities for which a nation builds other structures.
    pub open spec fn city_basis(self, sid: u16) -> int {
        if self.config.disabled(UnitType::City) {
            if self.tiles_owned(sid) / 2000 > 1 {
                self.tiles_owned(sid) / 2000
            } else {
                1
            }
        } else {
            self.owned(sid, UnitType::City)
        }
    }

    /// What a nation without cities builds first where nations are many.
    pub open spec fn first_structure(self, coastal: bool) -> UnitType {
        if coastal && !self.config.disabled(UnitType::Port) {
            UnitType::Port
        } else {
            UnitType::Factory
        }
    }

    /// The game after a nation thought of what to build besides what it starts with.
    pub open spec fn expanding_works(self, rng: u64, sid: u16, coastal: bool) -> (
        GameView,
        u64,
        bool,
    ) {
        let (game, after, done) = self.balancing(
            rng,
            sid,
            build_order(),
            self.city_basis(sid),
            coastal,
        );
        if done || self.config.disabled(UnitType::City) {
            (game, after, done)
        } else {
            game.developing(after, sid, UnitType::City)
        }
    }

    /// The game after a nation thought of what to build, once it guards itself.
    pub open spec fn settling_in(self, rng: u64, sid: u16, coastal: bool) -> (GameView, u64, bool) {
        if !self.config.disabled(UnitType::City) && self.owned(sid, UnitType::City) == 0
            && self.land() > 0 && self.is_crowded() {
            let (game, after, done) = self.developing(rng, sid, self.first_structure(coastal));
            if done {
                (game, after, true)
            } else {
                game.expanding_works(after, sid, coastal)
            }
        } else {
            self.expanding_works(rng, sid, coastal)
        }
    }

    /// The game after a nation thought of what to build.
    pub open spec fn handling_structures(self, rng: u64, sid: u16, placements: int) -> (
        GameView,
        u64,
        bool,
    ) {
        let game = self.charting();
        let coastal = game.known_bodies(sid).len() > 0;
        if game.guards_first(placements) {
            let (guarded, after, done) = game.developing(rng, sid, UnitType::SamLauncher);
            if done {
                (guarded, after, true)
            } else {
                guarded.settling_in(after, sid, coastal)
            }
        } else {
            game.settling_in(rng, sid, coastal)
        }
    }
}

/// Lets a nation upgrade a structure of a kind.
pub fn maybe_upgrade_structure_of_type(
    game: &mut Game,
    random: &mut PseudoRandom,
    small_id: u16,
    unit_type: UnitType,
) -> (ordered: bool)
    requires
        old(game).wf(),
    ensures
        final(game).wf(),
        (final(game)@, final(random).state, ordered) == old(game)@.upgrading(
            old(random).state,
            small_id,
            unit_type,
        ),
{
    if !is_densely_built(game, small_id) {
        return false;
    }
    match find_best_structure_to_upgrade(game, random, small_id, unit_type) {
        Some(unit_id) => {
            game.add_execution(
                ExecEnum::UpgradeStructure(UpgradeStructureExecution::new(small_id, unit_id)),
            );
            true
        },
        None => false,
    }
}

/// Lets a nation order a new structure of a kind.
fn found_structure(game: &mut Game, random: &mut PseudoRandom, small_id: u16, unit_type: UnitType) -> (
    ordered: bool)
    requires
        old(game).wf(),
    ensures
        final(game).wf(),
        (final(game)@, final(random).state, ordered) == old(game)@.founding(
            old(random).state,
            small_id,
            unit_type,
        ),
{
    let tile: TileRef = match structure_spawn_tile(game, random, small_id, unit_type) {
        Some(tile) => tile,
        None => return false,
    };
    if !can_build_structure(game, small_id, unit_type, tile) {
        return false;
    }
    game.add_execution(
        ExecEnum::Construction(ConstructionExecution::new(small_id, unit_type, tile, true)),
    );
    true
}

/// Lets a nation order a structure of a kind.
pub fn maybe_spawn_structure(
    game: &mut Game,
    random: &mut PseudoRandom,
    small_id: u16,
    unit_type: UnitType,
) -> (ordered: bool)
    requires
        old(game).wf(),
    ensures
        final(game).wf(),
        (final(game)@, final(random).state, ordered) == old(game)@.developing(
            old(random).state,
            small_id,
            unit_type,
        ),
{
    if game.wire.is_unit_disabled(unit_type) || game.player_by_small_id(small_id).is_none() {
        return false;
    }
    let cost: u128 = perceived_structure_cost(game, small_id, unit_type);
    if (game.gold_of(small_id) as u128) < cost {
        return false;
    }
    if is_densely_built(game, small_id) && unit_type.is_upgradable_type() {
        let count: usize = game.unit_count(small_id, unit_type);
        if maybe_upgrade_structure_of_type(game, random, small_id, unit_type) {
            return true;
        }
        if count > 0 {
            return false;
        }
    }
    found_structure(game, random, small_id, unit_type)
}

/// Whether a nation does not think of a kind.
fn is_pointless(game: &Game, unit_type: UnitType, has_coastal: bool) -> (pointless: bool)
    ensures
        pointless == game@.pointless(unit_type, has_coastal),
{
    let nukes_enabled: bool = !game.wire.is_unit_disabled(UnitType::AtomBomb)
        || !game.wire.is_unit_disabled(UnitType::HydrogenBomb) || !game.wire.is_unit_disabled(
        UnitType::Mirv,
    );
    if game.wire.is_unit_disabled(unit_type) {
        return true;
    }
    if unit_type == UnitType::Port && !has_coastal {
        return true;
    }
    if !nukes_enabled && (unit_type == UnitType::MissileSilo || unit_type == UnitType::SamLauncher) {
        return true;
    }
    game.wire.is_unit_disabled(UnitType::MissileSilo) && unit_type == UnitType::SamLauncher
}

/// Lets a nation order the first structure that it wants and can have.
fn balance_structures(
    game: &mut Game,
    random: &mut PseudoRandom,
    small_id: u16,
    city_count: i128,
    has_coastal: bool,
) -> (ordered: bool)
    requires
        old(game).wf(),
        0 <= city_count <= 10_000 * 0xffff_ffff_ffff_ffff,
    ensures
        final(game).wf(),
        (final(game)@, final(random).state, ordered) == old(game)@.balancing(
            old(random).state,
            small_id,
            build_order(),
            city_count as int,
            has_coastal,
        ),
{
    let kinds: [UnitType; 4] = [
        UnitType::Port,
        UnitType::Factory,
        UnitType::SamLauncher,
        UnitType::MissileSilo,
    ];
    let ghost goal = game@.balancing(
        random.state,
        small_id,
        build_order(),
        city_count as int,
        has_coastal,
    );
    assert(kinds@ =~= build_order());
    assert(kinds@.skip(0) =~= kinds@);
    for i in 0..4usize
        invariant
            game.wf(),
            0 <= city_count <= 10_000 * 0xffff_ffff_ffff_ffff,
            kinds@.len() == 4,
            goal == old(game)@.balancing(
                old(random).state,
                small_id,
                build_order(),
                city_count as int,
                has_coastal,
            ),
            game@.balancing(
                random.state,
                small_id,
                kinds@.skip(i as int),
                city_count as int,
                has_coastal,
            ) == goal,
    {
        let kind: UnitType = kinds[i];
        assert(kinds@.skip(i as int)[0] == kind);
        assert(kinds@.skip(i as int).skip(1) =~= kinds@.skip(i + 1));
        if !is_pointless(game, kind, has_coastal) && should_build_structure(
            game,
            small_id,
            kind,
            city_count,
            has_coastal,
        ) {
            if maybe_spawn_structure(game, random, small_id, kind) {
                return true;
            }
        }
    }
    false
}

/// The cities for which a nation builds other structures.
fn city_basis_of(game: &Game, small_id: u16) -> (cities: i128)
    requires
        game@.wf(),
    ensures
        cities == game@.city_basis(small_id),
        0 <= cities <= 10_000 * 0xffff_ffff_ffff_ffff,
{
    if game.wire.is_unit_disabled(UnitType::City) {
        let cities: i64 = game.tiles_of(small_id) / 2000;
        if cities > 1 {
            cities as i128
        } else {
            1
        }
    } else {
        assert(game.units.len() <= 0xffff_ffff_ffff_ffff);
        game.units_owned_count(small_id, UnitType::City)
    }
}

fn expand_works(game: &mut Game, random: &mut PseudoRandom, small_id: u16, has_coastal: bool) -> (
    ordered: bool)
    requires
        old(game).wf(),
    ensures
        final(game).wf(),
        (final(game)@, final(random).state, ordered) == old(game)@.expanding_works(
            old(random).state,
            small_id,
            has_coastal,
        ),
{
    let cities_disabled: bool = game.wire.is_unit_disabled(UnitType::City);
    let city_count: i128 = city_basis_of(game, small_id);
    if balance_structures(game, random, small_id, city_count, has_coastal) {
        return true;
    }
    !cities_disabled && maybe_spawn_structure(game, random, small_id, UnitType::City)
}

fn settle_in(game: &mut Game, random: &mut PseudoRandom, small_id: u16, has_coastal: bool) -> (ordered:
    bool)
    requires
        old(game).wf(),
    ensures
        final(game).wf(),
        (final(game)@, final(random).state, ordered) == old(game)@.settling_in(
            old(random).state,
            small_id,
            has_coastal,
        ),
{
    if !game.wire.is_unit_disabled(UnitType::City) && game.units_owned_count(
        small_id,
        UnitType::City,
    ) == 0 && is_high_nation_density(game) {
        let preferred: UnitType = if has_coastal && !game.wire.is_unit_disabled(UnitType::Port) {
            UnitType::Port
        } else {
            UnitType::Factory
        };
        if maybe_spawn_structure(game, random, small_id, preferred) {
            return true;
        }
    }
    expand_works(game, random, small_id, has_coastal)
}

/// Lets a nation order one structure: at the start a SAM launcher where it has gold for it,
/// then what it lacks for its cities, then a city.
pub fn do_handle_structures(
    game: &mut Game,
    random: &mut PseudoRandom,
    small_id: u16,
    placements_count: u32,
) -> (ordered: bool)
    requires
        old(game).wf(),
    ensures
        final(game).wf(),
        (final(game)@, final(random).state, ordered) == old(game)@.handling_structures(
            old(random).state,
            small_id,
            placements_count as int,
        ),
{
    let has_coastal: bool = crate::shared_water::has_coastal_tiles(game, small_id);
    let hard: bool = match game.wire.difficulty {
        Difficulty::Hard | Difficulty::Impossible => true,
        _ => false,
    };
    if placements_count == 0 && hard && !game.wire.is_unit_disabled(UnitType::AtomBomb)
        && !game.wire.is_unit_disabled(UnitType::MissileSilo) && !game.wire.is_unit_disabled(
        UnitType::SamLauncher,
    ) && game.wire.starting_gold_nation >= HIGH_STARTING_GOLD_THRESHOLD {
        if maybe_spawn_structure(game, random, small_id, UnitType::SamLauncher) {
            return true;
        }
    }
    settle_in(game, random, small_id, has_coastal)
}

} // verus!
