//! What a tile is worth to a nation as the place of a new structure.

use vstd::prelude::*;

use crate::config::Difficulty;
use crate::game::{Game, GameView};
use crate::ordered_tiles::TileRef;
use crate::prng::PseudoRandom;
use crate::state::{PlayerType, Unit};
use crate::unit_type::UnitType;

verus! {

/// Parts that the worth of a tile for a SAM launcher is counted in.
pub const GUARD_SCALE: i128 = 1_000_000;

/// The square of the distance up to which a new SAM launcher guards a structure.
pub const GUARD_RANGE_SQUARED: u64 = 4900;

/// How often, of a hundred times, a nation looks for structures that no SAM launcher
/// guards yet.
pub const COVERAGE_CHANCE: i32 = 25;

/// A train station that a player's trains could reach, with what a train earns there.
#[derive(Clone, Copy, Debug, PartialEq, Eq, Structural)]
pub struct ReachableStation {
    pub tile: TileRef,
    pub cluster: Option<u32>,
    pub weight: i64,
}

/// The position of a rail cluster in a list, or the length.
pub open spec fn cluster_at(clusters: Seq<(u32, i64)>, cluster: u32) -> int
    decreases clusters.len(),
{
    if clusters.len() == 0 {
        0
    } else if clusters[0].0 == cluster {
        0
    } else {
        1 + cluster_at(clusters.skip(1), cluster)
    }
}

/// The list of clusters, each with the best that a station in it earns, once another
/// station was seen.
pub open spec fn with_cluster(clusters: Seq<(u32, i64)>, cluster: u32, weight: i64) -> Seq<
    (u32, i64),
> {
    let at = cluster_at(clusters, cluster);
    if at >= clusters.len() {
        clusters.push((cluster, weight))
    } else if weight > clusters[at].1 {
        clusters.update(at, (cluster, weight))
    } else {
        clusters
    }
}

/// What the clusters earn together.
pub open spec fn cluster_sum(clusters: Seq<(u32, i64)>) -> int
    decreases clusters.len(),
{
    if clusters.len() == 0 {
        0
    } else {
        cluster_sum(clusters.drop_last()) + clusters.last().1
    }
}

/// The smaller of two numbers.
pub open spec fn smaller(a: int, b: int) -> int {
    if a < b {
        a
    } else {
        b
    }
}

/// How often, of a hundred times, a nation heeds the railways.
pub open spec fn connectivity_chance(difficulty: Difficulty) -> int {
    match difficulty {
        Difficulty::Easy => 0,
        Difficulty::Hard => 75,
        Difficulty::Impossible => 100,
        _ => 60,
    }
}

/// Tiles other than this.
pub open spec fn other_tile(t: TileRef) -> spec_fn(TileRef) -> bool {
    |x: TileRef| x != t
}

/// Makes a station out of a unit.
pub open spec fn station_of(weight: i64) -> spec_fn(Unit) -> ReachableStation {
    |u: Unit| ReachableStation { tile: u.tile, cluster: u.rail_cluster, weight }
}

/// A player's units with a train station.
pub open spec fn stops_at(sid: u16) -> spec_fn(Unit) -> bool {
    |u: Unit| u.owner == sid && u.unit_type.station() && u.has_train_station
}

/// A player's structures that are worth a guard.
pub open spec fn worth_guarding(sid: u16) -> spec_fn(Unit) -> bool {
    |u: Unit|
        u.owner == sid && (u.unit_type == UnitType::City || u.unit_type == UnitType::Factory
            || u.unit_type == UnitType::MissileSilo || u.unit_type == UnitType::Port)
}

impl GameView {
    /// How far a structure should lie from the border to be worth most.
    pub open spec fn border_spacing(self) -> int {
        self.config.atom_bomb.outer as int
    }

    /// How far a structure should lie from others of its kind to be worth most.
    pub open spec fn structure_spacing(self) -> int {
        2 * self.config.atom_bomb.outer
    }

    /// The steps from `t` to the nearest of `tiles`, `cap` at most, or `otherwise` where
    /// there are none.
    pub open spec fn nearness(self, tiles: Seq<TileRef>, t: TileRef, cap: int, otherwise: int) -> int {
        match crate::game_land::nearest(self.map, tiles, t) {
            Some(x) => smaller(self.map.manhattan(x, t), cap),
            None => otherwise,
        }
    }

    /// The tiles of a player's units of a kind, oldest first.
    pub open spec fn kind_tiles(self, sid: u16, unit_type: UnitType) -> Seq<TileRef> {
        self.units_of(sid, unit_type).map_values(crate::nuke_ai::tile_of_unit())
    }

    pub open spec fn stations_of(self, sid: u16, weight: i64) -> Seq<ReachableStation> {
        self.units.filter(stops_at(sid)).map_values(station_of(weight))
    }

    /// What a train of `sid` earns at a station of another player.
    pub open spec fn trade_weight(self, sid: u16, other: u16) -> i64 {
        if self.on_same_team(sid, other) {
            self.config.train_gold_team
        } else if self.allied(sid, other) {
            self.config.train_gold_ally
        } else {
            self.config.train_gold_other
        }
    }

    /// Players with whom `sid` can trade by train.
    pub open spec fn rail_partner(self, sid: u16) -> spec_fn(u16) -> bool {
        |id: u16| self.has(id) && !self.of_type(id, PlayerType::Bot) && self.can_trade(sid, id)
    }

    pub open spec fn foreign_stations(self, sid: u16, others: Seq<u16>) -> Seq<ReachableStation>
        decreases others.len(),
    {
        if others.len() == 0 {
            Seq::empty()
        } else {
            self.foreign_stations(sid, others.drop_last()) + self.stations_of(
                others.last(),
                self.trade_weight(sid, others.last()),
            )
        }
    }

    /// The stations that trains of a player can reach: its own, then those of neighbors.
    pub open spec fn reachable(self, sid: u16) -> Seq<ReachableStation> {
        self.stations_of(sid, self.config.train_gold_self) + self.foreign_stations(
            sid,
            self.near_ids(sid).filter(self.rail_partner(sid)),
        )
    }

    /// Whether rails from `t` reach a station.
    pub open spec fn in_rail_range(self, t: TileRef, station: TileRef) -> bool {
        let d = self.map.dist2(t, station);
        self.config.train_station_min_range * self.config.train_station_min_range <= d && d
            <= self.config.train_station_max_range * self.config.train_station_max_range
    }

    /// The clusters in range of `t`, with the best that each earns, and what the stations
    /// in range without a cluster earn together.
    pub open spec fn network(self, t: TileRef, stations: Seq<ReachableStation>) -> (
        Seq<(u32, i64)>,
        int,
    )
        decreases stations.len(),
    {
        if stations.len() == 0 {
            (Seq::empty(), 0)
        } else {
            let (clusters, isolated) = self.network(t, stations.drop_last());
            let s = stations.last();
            if !self.in_rail_range(t, s.tile) {
                (clusters, isolated)
            } else {
                match s.cluster {
                    Some(c) => (with_cluster(clusters, c, s.weight), isolated),
                    None => (clusters, isolated + s.weight),
                }
            }
        }
    }

    /// What the railways around `t` earn: in every cluster the best station counts, and
    /// every station without one.
    pub open spec fn connectivity(self, t: TileRef, stations: Seq<ReachableStation>) -> int {
        let (clusters, isolated) = self.network(t, stations);
        isolated + cluster_sum(clusters)
    }

    /// The worth of `t` for a city, in parts of what a train earns at an ally's station.
    pub open spec fn city_worth(self, sid: u16, t: TileRef, connected: bool) -> int {
        joined_worth(
            self.map.tiles[t as int].magnitude + self.nearness(
                self.border(sid),
                t,
                self.border_spacing(),
                0,
            ) + self.nearness(
                self.kind_tiles(sid, UnitType::City),
                t,
                self.structure_spacing(),
                0,
            ) + self.nearness(
                self.kind_tiles(sid, UnitType::Factory),
                t,
                self.structure_spacing(),
                0,
            ),
            self.connectivity(t, self.reachable(sid)),
            self.config.train_gold_ally as int,
            self.structure_spacing(),
            connected,
        )
    }

    /// The worth of `t` for a factory, in parts of what a train earns at an ally's station.
    pub open spec fn factory_worth(self, sid: u16, t: TileRef, connected: bool) -> int {
        joined_worth(
            self.map.tiles[t as int].magnitude + self.nearness(
                self.border(sid),
                t,
                self.border_spacing(),
                self.border_spacing(),
            ) + self.nearness(
                self.kind_tiles(sid, UnitType::Factory).filter(other_tile(t)),
                t,
                self.config.train_station_max_range as int,
                0,
            ) + self.nearness(
                self.kind_tiles(sid, UnitType::City),
                t,
                self.structure_spacing(),
                0,
            ),
            self.connectivity(t, self.reachable(sid)),
            self.config.train_gold_ally as int,
            self.structure_spacing(),
            connected,
        )
    }

    /// The worth of `t` for a structure that should lie inland and away from its like.
    pub open spec fn apart_worth(self, sid: u16, unit_type: UnitType, t: TileRef) -> int {
        self.map.tiles[t as int].magnitude + self.nearness(
            self.border(sid),
            t,
            self.border_spacing(),
            self.border_spacing(),
        ) + self.nearness(
            self.kind_tiles(sid, unit_type).filter(other_tile(t)),
            t,
            self.structure_spacing(),
            0,
        )
    }

    /// How much it is worth to guard one structure; less where it is guarded already and
    /// the nation heeds that.
    pub open spec fn guard_share(self, sid: u16, u: Unit, weighted: bool) -> int {
        let levels = if self.config.difficulty == Difficulty::Hard || self.config.difficulty
            == Difficulty::Impossible {
            u.level as int
        } else {
            1
        };
        let full = self.structure_spacing() * levels * GUARD_SCALE;
        if weighted {
            full / (1 + self.protection(u.tile, self.units_of(sid, UnitType::SamLauncher)))
        } else {
            full
        }
    }

    /// How much it is worth to guard those of `units` that lie near `t`.
    pub open spec fn guard_worth(self, sid: u16, t: TileRef, units: Seq<Unit>, weighted: bool) -> int
        decreases units.len(),
    {
        if units.len() == 0 {
            0
        } else {
            self.guard_worth(sid, t, units.drop_last(), weighted) + (if self.map.dist2(
                t,
                units.last().tile,
            ) <= GUARD_RANGE_SQUARED {
                self.guard_share(sid, units.last(), weighted)
            } else {
                0
            })
        }
    }

    /// The worth of `t` for a SAM launcher, in its own parts.
    pub open spec fn sam_worth(self, sid: u16, t: TileRef, weighted: bool) -> int {
        self.apart_worth(sid, UnitType::SamLauncher, t) * GUARD_SCALE + (if self.config.difficulty
            == Difficulty::Easy {
            0
        } else {
            self.guard_worth(sid, t, self.units.filter(worth_guarding(sid)), weighted)
        })
    }

    /// The worth of `t` for a port: its distance from the nearest other one.
    pub open spec fn port_worth(self, sid: u16, t: TileRef) -> int {
        match crate::game_land::nearest(self.map, self.kind_tiles(sid, UnitType::Port), t) {
            Some(x) => self.map.manhattan(x, t),
            None => 1,
        }
    }

    /// What a nation heeds when it places a structure, and the random state after that was
    /// drawn: railways for a city and a factory, guards for a SAM launcher.
    pub open spec fn judging(self, rng: u64, unit_type: UnitType) -> (bool, u64) {
        if unit_type == UnitType::City || unit_type == UnitType::Factory {
            (
                crate::prng::int_drawn(rng, 0, 100) < connectivity_chance(self.config.difficulty),
                crate::prng::next_state(rng),
            )
        } else if unit_type == UnitType::SamLauncher && self.config.difficulty != Difficulty::Easy {
            (crate::prng::int_drawn(rng, 0, 100) < COVERAGE_CHANCE, crate::prng::next_state(rng))
        } else {
            (false, rng)
        }
    }

    /// The worth of `t` for a structure.
    pub open spec fn site_worth(self, sid: u16, unit_type: UnitType, t: TileRef, heeding: bool) -> int {
        match unit_type {
            UnitType::City => self.city_worth(sid, t, heeding),
            UnitType::Factory => self.factory_worth(sid, t, heeding),
            UnitType::MissileSilo => self.apart_worth(sid, UnitType::MissileSilo, t),
            UnitType::SamLauncher => self.sam_worth(sid, t, heeding),
            UnitType::Port => self.port_worth(sid, t),
            _ => 0,
        }
    }
}

/// A worth together with what the railways earn, both in parts of `trade_gold`.
pub open spec fn joined_worth(
    base: int,
    earned: int,
    trade_gold: int,
    spacing: int,
    connected: bool,
) -> int {
    if connected {
        base * trade_gold + earned * spacing
    } else {
        base * trade_gold
    }
}

/// The distances at which structures are worth most: from the border and from each other.
pub fn spacing_constants(game: &Game) -> (spacing: (u32, u32))
    requires
        game@.wf(),
    ensures
        spacing.0 == game@.border_spacing(),
        spacing.1 == game@.structure_spacing(),
        spacing.0 <= 1000,
        spacing.1 <= 2000,
{
    let border: u32 = game.wire.atom_bomb.outer;
    (border, border * 2)
}

/// Whether a nation heeds the railways this time.
pub fn should_use_connectivity_score(random: &mut PseudoRandom, difficulty: Difficulty) -> (heeds:
    bool)
    ensures
        heeds == (crate::prng::int_drawn(old(random).state, 0, 100) < connectivity_chance(
            difficulty,
        )),
        final(random).state == crate::prng::next_state(old(random).state),
{
    let chance: i32 = match difficulty {
        Difficulty::Easy => 0,
        Difficulty::Hard => 75,
        Difficulty::Impossible => 100,
        _ => 60,
    };
    random.next_int(0, 100) < chance
}

/// The worth of a tile for a city, with what the railways around it earn. Both count in
/// parts of `trade_gold`.
pub fn city_value_with_connectivity(
    base_value: i64,
    connectivity_score: i128,
    trade_gold: i64,
    structure_spacing: u32,
    use_connection_score: bool,
) -> (value: i128)
    requires
        0 <= base_value <= 1_000_000,
        0 <= connectivity_score <= 0x80_0000_0000_0000_0000_0000,
        0 <= trade_gold <= 1_000_000,
        structure_spacing <= 2000,
    ensures
        value == joined_worth(
            base_value as int,
            connectivity_score as int,
            trade_gold as int,
            structure_spacing as int,
            use_connection_score,
        ),
        value >= 0,
{
    assert(0 <= base_value * trade_gold <= 1_000_000_000_000) by (nonlinear_arith)
        requires
            0 <= base_value <= 1_000_000,
            0 <= trade_gold <= 1_000_000,
    ;
    let base: i128 = base_value as i128 * trade_gold as i128;
    if use_connection_score {
        assert(0 <= connectivity_score * structure_spacing <= 0x80_0000_0000_0000_0000_0000 * 2000)
            by (nonlinear_arith)
            requires
                0 <= connectivity_score <= 0x80_0000_0000_0000_0000_0000,
                0 <= structure_spacing <= 2000,
        ;
        base + connectivity_score * structure_spacing as i128
    } else {
        base
    }
}

/// The steps to the nearest of `tiles`, at most `cap`.
fn steps_to(game: &Game, tiles: &Vec<TileRef>, t: TileRef, cap: u32, otherwise: u32) -> (steps: u32)
    requires
        game@.wf(),
        game@.map.valid(t),
        forall|i: int| 0 <= i < tiles@.len() ==> game@.map.valid(#[trigger] tiles@[i]),
        cap <= 10_000,
        otherwise <= 10_000,
    ensures
        steps == game@.nearness(tiles@, t, cap as int, otherwise as int),
        steps <= 10_000,
{
    let (found, dist): (Option<TileRef>, u32) = game.closest_tile(tiles, t);
    match found {
        Some(_) => if dist < cap {
            dist
        } else {
            cap
        },
        None => otherwise,
    }
}

/// The tiles of a player's units of a kind.
pub fn tiles_of_kind(game: &Game, small_id: u16, unit_type: UnitType) -> (tiles: Vec<TileRef>)
    requires
        game@.wf(),
    ensures
        tiles@ == game@.kind_tiles(small_id, unit_type),
        forall|i: int| 0 <= i < tiles@.len() ==> game@.map.valid(#[trigger] tiles@[i]),
{
    let units = game.units_of_type(small_id, unit_type);
    let tiles = crate::nuke_ai::unit_tiles(&units);
    assert forall|i: int| 0 <= i < tiles@.len() implies game@.map.valid(#[trigger] tiles@[i]) by {
        assert(tiles@[i] == units@[i].tile);
    }
    tiles
}

/// The tiles of a player's units of a kind but for one on `t` itself.
fn tiles_apart(game: &Game, small_id: u16, unit_type: UnitType, t: TileRef) -> (tiles: Vec<TileRef>)
    requires
        game@.wf(),
    ensures
        tiles@ == game@.kind_tiles(small_id, unit_type).filter(other_tile(t)),
        forall|i: int| 0 <= i < tiles@.len() ==> game@.map.valid(#[trigger] tiles@[i]),
{
    let all = tiles_of_kind(game, small_id, unit_type);
    let accepts = |x: TileRef| -> (other: bool)
        ensures
            other == other_tile(t)(x),
        { x != t };
    let tiles = crate::lists::filter_by(&all, accepts, Ghost(other_tile(t)));
    assert forall|i: int| 0 <= i < tiles@.len() implies game@.map.valid(#[trigger] tiles@[i]) by {
        assert(all@.contains(tiles@[i]));
    }
    tiles
}

/// Adds a player's stations to a list.
fn push_stations(game: &Game, small_id: u16, weight: i64, stations: &mut Vec<ReachableStation>)
    requires
        game@.wf(),
        0 <= weight <= 1_000_000,
        forall|i: int|
            0 <= i < old(stations)@.len() ==> game@.map.valid((#[trigger] old(stations)@[i]).tile)
                && 0 <= old(stations)@[i].weight <= 1_000_000,
    ensures
        final(stations)@ == old(stations)@ + game@.stations_of(small_id, weight),
        forall|i: int|
            0 <= i < final(stations)@.len() ==> game@.map.valid(
                (#[trigger] final(stations)@[i]).tile,
            ) && 0 <= final(stations)@[i].weight <= 1_000_000,
{
    let ghost p = stops_at(small_id);
    let ghost f = station_of(weight);
    let ghost before = stations@;
    assert(before + game@.units.take(0).filter(p).map_values(f) =~= before) by {
        reveal(Seq::filter);
    }
    for i in 0..game.units.len()
        invariant
            game@.wf(),
            0 <= weight <= 1_000_000,
            p == stops_at(small_id),
            f == station_of(weight),
            stations@ == before + game@.units.take(i as int).filter(p).map_values(f),
            forall|k: int|
                0 <= k < stations@.len() ==> game@.map.valid((#[trigger] stations@[k]).tile) && 0
                    <= stations@[k].weight <= 1_000_000,
    {
        let u: Unit = game.units[i];
        assert(game@.units[i as int] == u);
        let ghost held = game@.units.take(i as int).filter(p);
        proof {
            crate::lists::lemma_filter_step(game@.units, p, i as int);
        }
        if u.owner == small_id && u.unit_type.is_station() && u.has_train_station {
            assert(held.push(u).map_values(f) =~= held.map_values(f).push(f(u)));
            assert(before + held.map_values(f).push(f(u)) =~= (before + held.map_values(f)).push(
                f(u),
            ));
            stations.push(ReachableStation { tile: u.tile, cluster: u.rail_cluster, weight });
        }
    }
    proof {
        crate::lists::lemma_take_all(game@.units);
    }
}

/// The stations that trains of a player can reach.
pub fn build_reachable_stations(game: &Game, small_id: u16) -> (stations: Vec<ReachableStation>)
    requires
        game@.wf(),
    ensures
        stations@ == game@.reachable(small_id),
        forall|i: int|
            0 <= i < stations@.len() ==> game@.map.valid((#[trigger] stations@[i]).tile) && 0
                <= stations@[i].weight <= 1_000_000,
{
    let mut stations: Vec<ReachableStation> = Vec::new();
    push_stations(game, small_id, game.wire.train_gold_self, &mut stations);
    let ghost own = stations@;
    assert(own =~= game@.stations_of(small_id, game@.config.train_gold_self));
    let near = crate::ai_attack::nearby_player_small_ids(game, small_id);
    let accepts = |id: u16| -> (partner: bool)
        ensures
            partner == game@.rail_partner(small_id)(id),
        {
            game.player_by_small_id(id).is_some() && !game.is_of_type(id, PlayerType::Bot)
                && game.can_trade(small_id, id)
        };
    let partners = crate::lists::filter_by(&near, accepts, Ghost(game@.rail_partner(small_id)));
    assert(own + game@.foreign_stations(small_id, partners@.take(0)) =~= own);
    for i in 0..partners.len()
        invariant
            game@.wf(),
            stations@ == own + game@.foreign_stations(small_id, partners@.take(i as int)),
            forall|k: int|
                0 <= k < stations@.len() ==> game@.map.valid((#[trigger] stations@[k]).tile) && 0
                    <= stations@[k].weight <= 1_000_000,
    {
        let other: u16 = partners[i];
        let weight: i64 = if game.players_on_same_team(small_id, other) {
            game.wire.train_gold_team
        } else if game.is_allied_with(small_id, other) {
            game.wire.train_gold_ally
        } else {
            game.wire.train_gold_other
        };
        let ghost earlier = game@.foreign_stations(small_id, partners@.take(i as int));
        assert(partners@.take(i + 1).drop_last() =~= partners@.take(i as int));
        push_stations(game, other, weight, &mut stations);
        assert(own + (earlier + game@.stations_of(other, weight)) =~= (own + earlier)
            + game@.stations_of(other, weight));
    }
    proof {
        crate::lists::lemma_take_all(partners@);
    }
    stations
}

fn add_cluster(clusters: &mut Vec<(u32, i64)>, cluster: u32, weight: i64)
    requires
        0 <= weight <= 1_000_000,
        forall|i: int|
            0 <= i < old(clusters)@.len() ==> 0 <= (#[trigger] old(clusters)@[i]).1 <= 1_000_000,
    ensures
        final(clusters)@ == with_cluster(old(clusters)@, cluster, weight),
        forall|i: int|
            0 <= i < final(clusters)@.len() ==> 0 <= (#[trigger] final(clusters)@[i]).1
                <= 1_000_000,
{
    let n: usize = clusters.len();
    proof {
        crate::lists::lemma_take_all(clusters@);
    }
    let mut at: usize = 0;
    while at < n && clusters[at].0 != cluster
        invariant
            at <= n,
            n == clusters@.len(),
            cluster_at(clusters@, cluster) == at + cluster_at(clusters@.skip(at as int), cluster),
        decreases n - at,
    {
        assert(clusters@.skip(at as int).skip(1) =~= clusters@.skip(at + 1));
        at = at + 1;
    }
    if at >= n {
        clusters.push((cluster, weight));
    } else if weight > clusters[at].1 {
        clusters.set(at, (cluster, weight));
    }
}

/// What the railways around a tile earn.
pub fn compute_connectivity_score(game: &Game, tile: TileRef, stations: &Vec<ReachableStation>) -> (
    score: i128)
    requires
        game@.wf(),
        game@.map.valid(tile),
        forall|i: int|
            0 <= i < stations@.len() ==> game@.map.valid((#[trigger] stations@[i]).tile) && 0
                <= stations@[i].weight <= 1_000_000,
    ensures
        score == game@.connectivity(tile, stations@),
        0 <= score <= 2_000_000 * 0xffff_ffff_ffff_ffff,
{
    let mut clusters: Vec<(u32, i64)> = Vec::new();
    let mut isolated: i128 = 0;
    let min: u64 = game.wire.train_station_min_range as u64;
    let max: u64 = game.wire.train_station_max_range as u64;
    assert(0 <= min * min <= 100_000_000) by (nonlinear_arith)
        requires
            0 <= min <= 10_000,
    ;
    assert(0 <= max * max <= 100_000_000) by (nonlinear_arith)
        requires
            0 <= max <= 10_000,
    ;
    let min_range_sq: u64 = min * min;
    let station_range_sq: u64 = max * max;
    assert(stations.len() <= 0xffff_ffff_ffff_ffff);
    assert(stations@.take(0) =~= Seq::empty());
    for i in 0..stations.len()
        invariant
            game@.wf(),
            game@.map.valid(tile),
            stations.len() <= 0xffff_ffff_ffff_ffff,
            min_range_sq == game@.config.train_station_min_range
                * game@.config.train_station_min_range,
            station_range_sq == game@.config.train_station_max_range
                * game@.config.train_station_max_range,
            forall|k: int|
                0 <= k < stations@.len() ==> game@.map.valid((#[trigger] stations@[k]).tile) && 0
                    <= stations@[k].weight <= 1_000_000,
            (clusters@, isolated as int) == game@.network(tile, stations@.take(i as int)),
            0 <= isolated <= 1_000_000 * i,
            forall|k: int| 0 <= k < clusters@.len() ==> 0 <= (#[trigger] clusters@[k]).1
                <= 1_000_000,
    {
        let s: ReachableStation = stations[i];
        assert(game@.map.valid(stations@[i as int].tile));
        assert(stations@.take(i + 1).drop_last() =~= stations@.take(i as int));
        let dist: u64 = game.map.euclidean_dist_squared(tile, s.tile);
        if min_range_sq <= dist && dist <= station_range_sq {
            match s.cluster {
                Some(c) => add_cluster(&mut clusters, c, s.weight),
                None => {
                    isolated = isolated + s.weight as i128;
                },
            }
        }
    }
    proof {
        crate::lists::lemma_take_all(stations@);
    }
    let mut score: i128 = isolated;
    assert(clusters.len() <= 0xffff_ffff_ffff_ffff);
    assert(clusters@.take(0) =~= Seq::empty());
    for i in 0..clusters.len()
        invariant
            clusters.len() <= 0xffff_ffff_ffff_ffff,
            score == isolated + cluster_sum(clusters@.take(i as int)),
            0 <= isolated <= 1_000_000 * 0xffff_ffff_ffff_ffff,
            0 <= score <= isolated + 1_000_000 * i,
            forall|k: int| 0 <= k < clusters@.len() ==> 0 <= (#[trigger] clusters@[k]).1
                <= 1_000_000,
    {
        assert(clusters@.take(i + 1).drop_last() =~= clusters@.take(i as int));
        assert(0 <= clusters@[i as int].1 <= 1_000_000);
        score = score + clusters[i].1 as i128;
    }
    proof {
        crate::lists::lemma_take_all(clusters@);
    }
    score
}

/// The worth of a tile for a city.
pub fn city_value(
    game: &Game,
    small_id: u16,
    tile: TileRef,
    use_connection_score: bool,
    reachable_stations: &Vec<ReachableStation>,
) -> (value: i128)
    requires
        game@.wf(),
        game@.map.valid(tile),
        use_connection_score ==> reachable_stations@ == game@.reachable(small_id),
        forall|i: int|
            0 <= i < reachable_stations@.len() ==> game@.map.valid(
                (#[trigger] reachable_stations@[i]).tile,
            ) && 0 <= reachable_stations@[i].weight <= 1_000_000,
    ensures
        value == game@.city_worth(small_id, tile, use_connection_score),
{
    let (border_spacing, structure_spacing): (u32, u32) = spacing_constants(game);
    let border = game.border_tiles_for(small_id);
    let cities = tiles_of_kind(game, small_id, UnitType::City);
    let factories = tiles_of_kind(game, small_id, UnitType::Factory);
    let base: u32 = game.map.magnitude(tile) as u32 + steps_to(
        game,
        &border,
        tile,
        border_spacing,
        0,
    ) + steps_to(game, &cities, tile, structure_spacing, 0) + steps_to(
        game,
        &factories,
        tile,
        structure_spacing,
        0,
    );
    let score: i128 = if use_connection_score {
        compute_connectivity_score(game, tile, reachable_stations)
    } else {
        0
    };
    city_value_with_connectivity(
        base as i64,
        score,
        game.wire.train_gold_ally,
        structure_spacing,
        use_connection_score,
    )
}

/// The worth of a tile for a factory.
pub fn factory_value(
    game: &Game,
    small_id: u16,
    tile: TileRef,
    use_connection_score: bool,
    reachable_stations: &Vec<ReachableStation>,
) -> (value: i128)
    requires
        game@.wf(),
        game@.map.valid(tile),
        use_connection_score ==> reachable_stations@ == game@.reachable(small_id),
        forall|i: int|
            0 <= i < reachable_stations@.len() ==> game@.map.valid(
                (#[trigger] reachable_stations@[i]).tile,
            ) && 0 <= reachable_stations@[i].weight <= 1_000_000,
    ensures
        value == game@.factory_worth(small_id, tile, use_connection_score),
{
    let (border_spacing, structure_spacing): (u32, u32) = spacing_constants(game);
    let border = game.border_tiles_for(small_id);
    let others = tiles_apart(game, small_id, UnitType::Factory, tile);
    let cities = tiles_of_kind(game, small_id, UnitType::City);
    let base: u32 = game.map.magnitude(tile) as u32 + steps_to(
        game,
        &border,
        tile,
        border_spacing,
        border_spacing,
    ) + steps_to(game, &others, tile, game.wire.train_station_max_range, 0) + steps_to(
        game,
        &cities,
        tile,
        structure_spacing,
        0,
    );
    let score: i128 = if use_connection_score {
        compute_connectivity_score(game, tile, reachable_stations)
    } else {
        0
    };
    city_value_with_connectivity(
        base as i64,
        score,
        game.wire.train_gold_ally,
        structure_spacing,
        use_connection_score,
    )
}

/// The worth of a tile for a structure that should lie inland and away from its like.
pub fn value_apart(game: &Game, small_id: u16, unit_type: UnitType, tile: TileRef) -> (value: i128)
    requires
        game@.wf(),
        game@.map.valid(tile),
    ensures
        value == game@.apart_worth(small_id, unit_type, tile),
        0 <= value <= 30_000,
{
    let (border_spacing, structure_spacing): (u32, u32) = spacing_constants(game);
    let border = game.border_tiles_for(small_id);
    let others = tiles_apart(game, small_id, unit_type, tile);
    let value: u32 = game.map.magnitude(tile) as u32 + steps_to(
        game,
        &border,
        tile,
        border_spacing,
        border_spacing,
    ) + steps_to(game, &others, tile, structure_spacing, 0);
    value as i128
}

/// How much it is worth to guard a structure.
fn guard_value(game: &Game, small_id: u16, u: Unit, weighted: bool, sams: &Vec<Unit>) -> (value: i128)
    requires
        game@.wf(),
        u.wf(),
        game@.map.valid(u.tile),
        sams@ == game@.units_of(small_id, UnitType::SamLauncher),
        forall|i: int|
            0 <= i < sams@.len() ==> (#[trigger] sams@[i]).wf() && game@.map.valid(sams@[i].tile),
    ensures
        value == game@.guard_share(small_id, u, weighted),
        0 <= value <= 20_000_000_000_000,
{
    let (_, structure_spacing): (u32, u32) = spacing_constants(game);
    let levels: i32 = match game.wire.difficulty {
        Difficulty::Hard | Difficulty::Impossible => u.level,
        _ => 1,
    };
    assert(0 <= structure_spacing * levels <= 20_000_000) by (nonlinear_arith)
        requires
            0 <= structure_spacing <= 2000,
            0 <= levels <= 10_000,
    ;
    let full: i128 = structure_spacing as i128 * levels as i128 * GUARD_SCALE;
    if weighted {
        let protection: i128 = crate::nuke_volley::protection_of(game, u.tile, sams);
        assert(0 <= full as int / (1 + protection) <= full) by (nonlinear_arith)
            requires
                full >= 0,
                protection >= 0,
        ;
        full / (1 + protection)
    } else {
        full
    }
}

/// The worth of a tile for a SAM launcher.
pub fn sam_launcher_value(game: &Game, small_id: u16, tile: TileRef, weighted: bool) -> (value: i128)
    requires
        game@.wf(),
        game@.map.valid(tile),
    ensures
        value == game@.sam_worth(small_id, tile, weighted),
{
    let base: i128 = value_apart(game, small_id, UnitType::SamLauncher, tile) * GUARD_SCALE;
    if game.wire.difficulty == Difficulty::Easy {
        return base;
    }
    let accepts = |u: Unit| -> (worth: bool)
        ensures
            worth == worth_guarding(small_id)(u),
        {
            u.owner == small_id && (u.unit_type == UnitType::City || u.unit_type
                == UnitType::Factory || u.unit_type == UnitType::MissileSilo || u.unit_type
                == UnitType::Port)
        };
    let guarded = crate::lists::filter_by(&game.units, accepts, Ghost(worth_guarding(small_id)));
    let sams = game.units_of_type(small_id, UnitType::SamLauncher);
    let mut sum: i128 = 0;
    assert(guarded.len() <= 0xffff_ffff_ffff_ffff);
    assert(guarded@.take(0) =~= Seq::empty());
    proof {
        crate::game_units::lemma_filtered_units(
            game@.map,
            game@.units,
            worth_guarding(small_id),
        );
    }
    for i in 0..guarded.len()
        invariant
            game@.wf(),
            game@.map.valid(tile),
            guarded.len() <= 0xffff_ffff_ffff_ffff,
            sams@ == game@.units_of(small_id, UnitType::SamLauncher),
            forall|k: int|
                0 <= k < sams@.len() ==> (#[trigger] sams@[k]).wf() && game@.map.valid(
                    sams@[k].tile,
                ),
            forall|k: int|
                0 <= k < guarded@.len() ==> (#[trigger] guarded@[k]).wf() && game@.map.valid(
                    guarded@[k].tile,
                ),
            sum == game@.guard_worth(small_id, tile, guarded@.take(i as int), weighted),
            0 <= sum <= 20_000_000_000_000 * i,
    {
        let u: Unit = guarded[i];
        assert(guarded@[i as int].wf());
        assert(guarded@.take(i + 1).drop_last() =~= guarded@.take(i as int));
        if game.map.euclidean_dist_squared(tile, u.tile) <= GUARD_RANGE_SQUARED {
            sum = sum + guard_value(game, small_id, u, weighted, &sams);
        }
    }
    proof {
        crate::lists::lemma_take_all(guarded@);
    }
    base + sum
}

/// The worth of a tile for a port.
pub fn port_value(game: &Game, small_id: u16, tile: TileRef) -> (value: u32)
    requires
        game@.wf(),
        game@.map.valid(tile),
    ensures
        value == game@.port_worth(small_id, tile),
{
    let ports = tiles_of_kind(game, small_id, UnitType::Port);
    let (found, dist): (Option<TileRef>, u32) = game.closest_tile(&ports, tile);
    match found {
        Some(_) => dist,
        None => 1,
    }
}

/// What a nation heeds when it places a structure.
pub fn judge(game: &Game, random: &mut PseudoRandom, unit_type: UnitType) -> (heeding: bool)
    ensures
        (heeding, final(random).state) == game@.judging(old(random).state, unit_type),
{
    match unit_type {
        UnitType::City | UnitType::Factory => should_use_connectivity_score(
            random,
            game.wire.difficulty,
        ),
        UnitType::SamLauncher => game.wire.difficulty != Difficulty::Easy && random.next_int(
            0,
            100,
        ) < COVERAGE_CHANCE,
        _ => false,
    }
}

/// The worth of a tile for a structure.
pub fn structure_value(
    game: &Game,
    small_id: u16,
    unit_type: UnitType,
    tile: TileRef,
    heeding: bool,
    reachable_stations: &Vec<ReachableStation>,
) -> (value: i128)
    requires
        game@.wf(),
        game@.map.valid(tile),
        heeding && (unit_type == UnitType::City || unit_type == UnitType::Factory)
            ==> reachable_stations@ == game@.reachable(small_id),
        forall|i: int|
            0 <= i < reachable_stations@.len() ==> game@.map.valid(
                (#[trigger] reachable_stations@[i]).tile,
            ) && 0 <= reachable_stations@[i].weight <= 1_000_000,
    ensures
        value == game@.site_worth(small_id, unit_type, tile, heeding),
{
    match unit_type {
        UnitType::City => city_value(game, small_id, tile, heeding, reachable_stations),
        UnitType::Factory => factory_value(game, small_id, tile, heeding, reachable_stations),
        UnitType::MissileSilo => value_apart(game, small_id, UnitType::MissileSilo, tile),
        UnitType::SamLauncher => sam_launcher_value(game, small_id, tile, heeding),
        UnitType::Port => port_value(game, small_id, tile) as i128,
        _ => 0,
    }
}

} // verus!
