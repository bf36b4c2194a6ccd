//! The map: terrain, ownership and fallout of every tile, and the geometry between tiles.

use vstd::prelude::*;

use crate::ordered_tiles::TileRef;

verus! {

/// The largest width and height of a map.
pub const MAX_SIDE: u32 = 65535;

/// The magnitude that marks land nobody can enter.
pub const IMPASSABLE_MAGNITUDE: u8 = 31;

#[derive(Clone, Copy, Debug, PartialEq, Eq, Structural)]
pub enum TerrainType {
    Plains,
    Highland,
    Mountain,
    Impassable,
    Water,
}

/// What is known of one tile.
#[derive(Clone, Copy, Debug, PartialEq, Eq, Structural)]
pub struct Tile {
    pub land: bool,
    /// Land next to water, or water next to land.
    pub shoreline: bool,
    pub ocean: bool,
    pub magnitude: u8,
    /// The small id of the owner; 0 where nobody owns the tile.
    pub owner: u16,
    pub fallout: bool,
    /// The body of water that the tile belongs to.
    pub component: Option<u32>,
}

/// The size of a map and the number of land tiles it declares.
#[derive(Clone, Copy, Debug)]
pub struct MapMeta {
    pub width: u32,
    pub height: u32,
    pub num_land_tiles: u32,
}

/// A map as its contracts see it.
#[verifier::ext_equal]
pub struct MapView {
    pub width: int,
    pub height: int,
    pub tiles: Seq<Tile>,
}

/// The distance between two coordinates.
pub open spec fn gap(a: int, b: int) -> int {
    if a < b {
        b - a
    } else {
        a - b
    }
}

/// The tile that a terrain byte describes: bit 7 is land, bit 6 shoreline, bit 5 ocean,
/// the low five bits the magnitude.
pub open spec fn tile_of_byte(byte: u8) -> Tile {
    Tile {
        land: byte & 0x80 != 0,
        shoreline: byte & 0x40 != 0,
        ocean: byte & 0x20 != 0,
        magnitude: byte & 0x1f,
        owner: 0,
        fallout: false,
        component: if byte & 0x80 == 0 {
            Some(0u32)
        } else {
            None
        },
    }
}

impl MapView {
    pub open spec fn wf(self) -> bool {
        &&& 0 < self.width <= MAX_SIDE
        &&& 0 < self.height <= MAX_SIDE
        &&& self.tiles.len() == self.width * self.height
    }

    pub open spec fn valid(self, t: TileRef) -> bool {
        t < self.tiles.len()
    }

    pub open spec fn x(self, t: TileRef) -> int {
        t as int % self.width
    }

    pub open spec fn y(self, t: TileRef) -> int {
        t as int / self.width
    }

    pub open spec fn valid_coord(self, x: int, y: int) -> bool {
        0 <= x < self.width && 0 <= y < self.height
    }

    pub open spec fn at(self, x: int, y: int) -> TileRef {
        (y * self.width + x) as TileRef
    }

    pub open spec fn owner(self, t: TileRef) -> u16 {
        self.tiles[t as int].owner
    }

    pub open spec fn is_land(self, t: TileRef) -> bool {
        self.tiles[t as int].land
    }

    pub open spec fn is_water(self, t: TileRef) -> bool {
        !self.tiles[t as int].land
    }

    pub open spec fn is_ocean(self, t: TileRef) -> bool {
        self.tiles[t as int].ocean
    }

    pub open spec fn is_shore(self, t: TileRef) -> bool {
        self.tiles[t as int].land && self.tiles[t as int].shoreline
    }

    pub open spec fn is_impassable(self, t: TileRef) -> bool {
        self.tiles[t as int].land && self.tiles[t as int].magnitude == IMPASSABLE_MAGNITUDE
    }

    pub open spec fn has_fallout(self, t: TileRef) -> bool {
        self.tiles[t as int].fallout
    }

    pub open spec fn terrain_type(self, t: TileRef) -> TerrainType {
        if !self.is_land(t) {
            TerrainType::Water
        } else if self.tiles[t as int].magnitude < 10 {
            TerrainType::Plains
        } else if self.tiles[t as int].magnitude < 20 {
            TerrainType::Highland
        } else if self.tiles[t as int].magnitude < IMPASSABLE_MAGNITUDE {
            TerrainType::Mountain
        } else {
            TerrainType::Impassable
        }
    }

    pub open spec fn on_edge(self, t: TileRef) -> bool {
        self.x(t) == 0 || self.x(t) == self.width - 1 || self.y(t) == 0 || self.y(t) == self.height - 1
    }

    /// The tiles above, below, left and right of `t`, in this order, as far as they are
    /// on the map.
    pub open spec fn neighbors4(self, t: TileRef) -> Seq<TileRef> {
        let up = if t >= self.width {
            seq![(t - self.width) as TileRef]
        } else {
            Seq::empty()
        };
        let down = if t + self.width < self.tiles.len() {
            seq![(t + self.width) as TileRef]
        } else {
            Seq::empty()
        };
        let left = if self.x(t) != 0 {
            seq![(t - 1) as TileRef]
        } else {
            Seq::empty()
        };
        let right = if self.x(t) != self.width - 1 {
            seq![(t + 1) as TileRef]
        } else {
            Seq::empty()
        };
        up + down + left + right
    }

    /// Whether the tile at this distance from `t`, if it is on the map, is a member of
    /// `neighbors8`.
    pub open spec fn neighbor_at(self, t: TileRef, dx: int, dy: int) -> Seq<TileRef> {
        if self.valid_coord(self.x(t) + dx, self.y(t) + dy) {
            seq![self.at(self.x(t) + dx, self.y(t) + dy)]
        } else {
            Seq::empty()
        }
    }

    /// The eight tiles around `t`, column by column from the left, as far as they are on
    /// the map.
    pub open spec fn neighbors8(self, t: TileRef) -> Seq<TileRef> {
        self.neighbor_at(t, -1, -1) + self.neighbor_at(t, -1, 0) + self.neighbor_at(t, -1, 1)
            + self.neighbor_at(t, 0, -1) + self.neighbor_at(t, 0, 1) + self.neighbor_at(t, 1, -1)
            + self.neighbor_at(t, 1, 0) + self.neighbor_at(t, 1, 1)
    }

    pub open spec fn is_ocean_shore(self, t: TileRef) -> bool {
        self.is_land(t) && exists|i: int|
            0 <= i < self.neighbors4(t).len() && self.is_ocean(#[trigger] self.neighbors4(t)[i])
    }

    pub open spec fn manhattan(self, a: TileRef, b: TileRef) -> int {
        gap(self.x(a), self.x(b)) + gap(self.y(a), self.y(b))
    }

    pub open spec fn dist2(self, a: TileRef, b: TileRef) -> int {
        gap(self.x(a), self.x(b)) * gap(self.x(a), self.x(b)) + gap(self.y(a), self.y(b)) * gap(
            self.y(a),
            self.y(b),
        )
    }

    /// Whether a tile next to `t` belongs to the body of water `component`.
    pub open spec fn touches_component(self, t: TileRef, component: u32) -> bool {
        exists|i: int|
            0 <= i < self.neighbors4(t).len() && self.is_water(#[trigger] self.neighbors4(t)[i])
                && self.tiles[self.neighbors4(t)[i] as int].component == Some(component)
    }

    /// The map after `t` changed hands.
    pub open spec fn with_owner(self, t: TileRef, owner: u16) -> MapView {
        MapView {
            tiles: self.tiles.update(t as int, Tile { owner, ..self.tiles[t as int] }),
            ..self
        }
    }

    /// The number of land tiles among the first `n`.
    pub open spec fn count_land(self, n: nat) -> nat
        decreases n,
    {
        if n == 0 {
            0
        } else {
            self.count_land((n - 1) as nat) + (if self.tiles[n - 1].land {
                1nat
            } else {
                0
            })
        }
    }

    /// The number of tiles with fallout among the first `n`.
    pub open spec fn count_fallout(self, n: nat) -> nat
        decreases n,
    {
        if n == 0 {
            0
        } else {
            self.count_fallout((n - 1) as nat) + (if self.tiles[n - 1].fallout {
                1nat
            } else {
                0
            })
        }
    }

    /// The coordinates of a tile lead back to it.
    pub proof fn lemma_xy(self, t: TileRef)
        requires
            self.wf(),
            self.valid(t),
        ensures
            self.valid_coord(self.x(t), self.y(t)),
            self.at(self.x(t), self.y(t)) == t,
    {
        let w = self.width;
        let h = self.height;
        let n = t as int;
        assert(0 <= n % w < w && 0 <= n / w && n == (n / w) * w + n % w) by (nonlinear_arith)
            requires
                0 <= n,
                w > 0,
        ;
        assert(n / w < h) by (nonlinear_arith)
            requires
                0 <= n < w * h,
                w > 0,
        ;
    }

    /// Coordinates on the map name a tile, and that tile has these coordinates.
    pub proof fn lemma_at(self, x: int, y: int)
        requires
            self.wf(),
            self.valid_coord(x, y),
        ensures
            self.valid(self.at(x, y)),
            self.at(x, y) == y * self.width + x,
            self.x(self.at(x, y)) == x,
            self.y(self.at(x, y)) == y,
    {
        let w = self.width;
        let h = self.height;
        assert(0 <= y * w + x < w * h && w * h <= 65535 * 65535) by (nonlinear_arith)
            requires
                0 <= x < w,
                0 <= y < h,
                w <= 65535,
                h <= 65535,
        ;
        let n = y * w + x;
        assert(n % w == x && n / w == y) by (nonlinear_arith)
            requires
                n == y * w + x,
                0 <= x < w,
                0 <= y,
        ;
    }

    /// A map has room for every tile reference.
    pub proof fn lemma_len(self)
        requires
            self.wf(),
        ensures
            0 < self.tiles.len() <= 0xfffe_0001,
    {
        let w = self.width;
        let h = self.height;
        assert(0 < w * h <= 65535 * 65535) by (nonlinear_arith)
            requires
                0 < w <= 65535,
                0 < h <= 65535,
        ;
    }

    /// Neighbours are on the map, and being a neighbour goes both ways.
    pub proof fn lemma_neighbors4(self, t: TileRef)
        requires
            self.wf(),
            self.valid(t),
        ensures
            self.neighbors4(t).len() <= 4,
            forall|i: int|
                0 <= i < self.neighbors4(t).len() ==> self.valid(#[trigger] self.neighbors4(t)[i])
                    && self.neighbors4(t)[i] != t && self.neighbors4(self.neighbors4(t)[i]).contains(t),
    {
        self.lemma_len();
        self.lemma_xy(t);
        let w = self.width;
        let n = t as int;
        let all = self.neighbors4(t);
        assert forall|i: int| 0 <= i < all.len() implies self.valid(#[trigger] all[i]) && all[i] != t
            && self.neighbors4(all[i]).contains(t) by {
            let m = all[i];
            self.lemma_step(n);
            if t >= w && m == n - w {
                let s = self.neighbors4(m);
                assert(m + w == n);
                let k = if m >= w { 1int } else { 0 };
                assert(s[k] == t);
            } else if n + w < self.tiles.len() && m == n + w {
                assert(self.neighbors4(m)[0] == t);
            } else if self.x(t) != 0 && m == n - 1 {
                let s = self.neighbors4(m);
                assert(self.x(m) != w - 1);
                assert(s[s.len() - 1] == t);
            } else {
                assert(m == n + 1);
                let s = self.neighbors4(m);
                assert(self.x(m) != 0);
                let k = s.len() - (if self.x(m) != w - 1 { 2int } else { 1 });
                assert(s[k] == t);
            }
        }
    }

    proof fn lemma_step(self, n: int)
        requires
            self.wf(),
            0 <= n < self.tiles.len(),
        ensures
            n % self.width != self.width - 1 ==> (n + 1) % self.width == n % self.width + 1,
            n % self.width != self.width - 1 ==> n + 1 < self.tiles.len(),
            n % self.width != 0 ==> (n - 1) % self.width == n % self.width - 1,
            n % self.width != 0 ==> n >= 1,
    {
        let w = self.width;
        let h = self.height;
        let q = n / w;
        let r = n % w;
        assert(n == q * w + r && 0 <= r < w && 0 <= q) by (nonlinear_arith)
            requires
                0 <= n,
                w > 0,
                q == n / w,
                r == n % w,
        ;
        assert(q < h) by (nonlinear_arith)
            requires
                0 <= n < w * h,
                w > 0,
                q == n / w,
        ;
        if r != w - 1 {
            assert((n + 1) % w == r + 1) by (nonlinear_arith)
                requires
                    n == q * w + r,
                    0 <= r,
                    r + 1 < w,
                    0 <= q,
            ;
            assert(n + 1 < w * h) by (nonlinear_arith)
                requires
                    n == q * w + r,
                    0 <= r,
                    r + 1 < w,
                    0 <= q < h,
            ;
        }
        if r != 0 {
            assert((n - 1) % w == r - 1) by (nonlinear_arith)
                requires
                    n == q * w + r,
                    0 < r < w,
                    0 <= q,
            ;
            assert(n >= 1) by (nonlinear_arith)
                requires
                    n == q * w + r,
                    0 < r,
                    0 <= q,
                    w > 0,
            ;
        }
    }

    /// The tiles around a tile are on the map.
    pub proof fn lemma_neighbors8(self, t: TileRef)
        requires
            self.wf(),
            self.valid(t),
        ensures
            self.neighbors8(t).len() <= 8,
            forall|i: int|
                0 <= i < self.neighbors8(t).len() ==> self.valid(#[trigger] self.neighbors8(t)[i]),
    {
        assert forall|dx: int, dy: int| self.valid_coord(self.x(t) + dx, self.y(t) + dy) implies self.valid(
            #[trigger] self.at(self.x(t) + dx, self.y(t) + dy),
        ) by {
            self.lemma_at(self.x(t) + dx, self.y(t) + dy);
        }
    }

    /// Every tile but `t` has a neighbour one step closer to `t`.
    pub proof fn lemma_closer(self, t: TileRef, x: TileRef) -> (closer: TileRef)
        requires
            self.wf(),
            self.valid(t),
            self.valid(x),
            x != t,
        ensures
            self.valid(closer),
            self.manhattan(t, closer) == self.manhattan(t, x) - 1,
            self.neighbors4(closer).contains(x),
    {
        self.lemma_len();
        self.lemma_xy(t);
        self.lemma_xy(x);
        let w = self.width as int;
        let (cx, cy) = (self.x(x), self.y(x));
        self.lemma_at(cx, cy);
        let all = self.neighbors4(x);
        let (nx, ny) = if cx < self.x(t) {
            (cx + 1, cy)
        } else if cx > self.x(t) {
            (cx - 1, cy)
        } else if cy < self.y(t) {
            (cx, cy + 1)
        } else {
            (cx, cy - 1)
        };
        self.lemma_at(nx, ny);
        let closer = self.at(nx, ny);
        assert((cy + 1) * w == cy * w + w && (cy - 1) * w == cy * w - w) by (nonlinear_arith);
        let k: int = if cx < self.x(t) {
            assert(closer == x + 1);
            all.len() - 1
        } else if cx > self.x(t) {
            assert(closer == x - 1);
            all.len() - (if cx != w - 1 {
                2int
            } else {
                1
            })
        } else if cy < self.y(t) {
            assert(closer == x + w);
            if x >= w {
                1
            } else {
                0
            }
        } else {
            assert(cy > self.y(t)) by {
                if cy == self.y(t) {
                    self.lemma_at(cx, cy);
                }
            }
            assert(closer == x - w);
            assert(x >= w);
            0
        };
        assert(all[k] == closer);
        self.lemma_neighbors4(x);
        closer
    }

    /// Distances fit in machine integers.
    pub proof fn lemma_distances(self, a: TileRef, b: TileRef)
        requires
            self.wf(),
            self.valid(a),
            self.valid(b),
        ensures
            0 <= self.manhattan(a, b) <= 131068,
            0 <= self.dist2(a, b) <= 8589672450,
    {
        self.lemma_xy(a);
        self.lemma_xy(b);
        let dx = gap(self.x(a), self.x(b));
        let dy = gap(self.y(a), self.y(b));
        assert(0 <= dx * dx <= 65535 * 65535 && 0 <= dy * dy <= 65535 * 65535) by (nonlinear_arith)
            requires
                0 <= dx <= 65535,
                0 <= dy <= 65535,
        ;
    }
}

/// The map of a game.
pub struct GameMap {
    pub width: u32,
    pub height: u32,
    pub tiles: Vec<Tile>,
}

impl View for GameMap {
    type V = MapView;

    open spec fn view(&self) -> MapView {
        MapView { width: self.width as int, height: self.height as int, tiles: self.tiles@ }
    }
}

impl GameMap {
    /// The map that terrain bytes describe; `None` where their number is not that of the
    /// tiles, or a side is out of range.
    pub fn from_terrain_bytes(meta: &MapMeta, bytes: &Vec<u8>) -> (map: Option<GameMap>)
        ensures
            map is Some == (0 < meta.width <= MAX_SIDE && 0 < meta.height <= MAX_SIDE && bytes@.len()
                == meta.width * meta.height),
            map is Some ==> map->0@.wf(),
            map is Some ==> map->0@ == (MapView {
                width: meta.width as int,
                height: meta.height as int,
                tiles: bytes@.map_values(|byte: u8| tile_of_byte(byte)),
            }),
    {
        if meta.width == 0 || meta.width > MAX_SIDE || meta.height == 0 || meta.height > MAX_SIDE {
            return None;
        }
        assert(meta.width * meta.height <= 65535 * 65535) by (nonlinear_arith)
            requires
                meta.width <= 65535,
                meta.height <= 65535,
        ;
        let area: u64 = meta.width as u64 * meta.height as u64;
        if bytes.len() as u64 != area {
            return None;
        }
        let mut tiles: Vec<Tile> = Vec::new();
        for i in 0..bytes.len()
            invariant
                tiles@ == bytes@.take(i as int).map_values(|byte: u8| tile_of_byte(byte)),
        {
            let byte: u8 = bytes[i];
            let component: Option<u32> = if byte & 0x80 == 0 {
                Some(0u32)
            } else {
                None
            };
            tiles.push(
                Tile {
                    land: byte & 0x80 != 0,
                    shoreline: byte & 0x40 != 0,
                    ocean: byte & 0x20 != 0,
                    magnitude: byte & 0x1f,
                    owner: 0,
                    fallout: false,
                    component,
                },
            );
            assert(bytes@.take(i + 1).map_values(|byte: u8| tile_of_byte(byte)) =~= bytes@.take(
                i as int,
            ).map_values(|byte: u8| tile_of_byte(byte)).push(tile_of_byte(byte)));
        }
        assert(bytes@.take(bytes@.len() as int) =~= bytes@);
        Some(GameMap { width: meta.width, height: meta.height, tiles })
    }

    pub fn x(&self, t: TileRef) -> (x: u32)
        requires
            self@.wf(),
            self@.valid(t),
        ensures
            x == self@.x(t),
            x < self.width,
    {
        proof {
            self@.lemma_xy(t);
        }
        t % self.width
    }

    pub fn y(&self, t: TileRef) -> (y: u32)
        requires
            self@.wf(),
            self@.valid(t),
        ensures
            y == self@.y(t),
            y < self.height,
    {
        proof {
            self@.lemma_xy(t);
        }
        t / self.width
    }

    pub fn is_on_map(&self, t: TileRef) -> (on: bool)
        ensures
            on == self@.valid(t),
    {
        (t as usize) < self.tiles.len()
    }

    pub fn is_valid_coord(&self, x: i32, y: i32) -> (valid: bool)
        ensures
            valid == self@.valid_coord(x as int, y as int),
    {
        x >= 0 && y >= 0 && (x as i64) < self.width as i64 && (y as i64) < self.height as i64
    }

    pub fn ref_xy(&self, x: u32, y: u32) -> (t: TileRef)
        requires
            self@.wf(),
            self@.valid_coord(x as int, y as int),
        ensures
            t == self@.at(x as int, y as int),
            self@.valid(t),
            self@.x(t) == x,
            self@.y(t) == y,
    {
        proof {
            self@.lemma_at(x as int, y as int);
            self@.lemma_len();
        }
        let wide: u64 = y as u64 * self.width as u64 + x as u64;
        wide as u32
    }

    pub fn owner_id(&self, t: TileRef) -> (owner: u16)
        requires
            self@.valid(t),
        ensures
            owner == self@.owner(t),
    {
        self.tiles[t as usize].owner
    }

    pub fn is_land(&self, t: TileRef) -> (land: bool)
        requires
            self@.valid(t),
        ensures
            land == self@.is_land(t),
    {
        self.tiles[t as usize].land
    }

    pub fn is_water(&self, t: TileRef) -> (water: bool)
        requires
            self@.valid(t),
        ensures
            water == self@.is_water(t),
    {
        !self.tiles[t as usize].land
    }

    pub fn is_ocean(&self, t: TileRef) -> (ocean: bool)
        requires
            self@.valid(t),
        ensures
            ocean == self@.is_ocean(t),
    {
        self.tiles[t as usize].ocean
    }

    pub fn is_shore(&self, t: TileRef) -> (shore: bool)
        requires
            self@.valid(t),
        ensures
            shore == self@.is_shore(t),
    {
        self.tiles[t as usize].land && self.tiles[t as usize].shoreline
    }

    pub fn is_impassable(&self, t: TileRef) -> (impassable: bool)
        requires
            self@.valid(t),
        ensures
            impassable == self@.is_impassable(t),
    {
        self.tiles[t as usize].land && self.tiles[t as usize].magnitude == IMPASSABLE_MAGNITUDE
    }

    pub fn has_fallout(&self, t: TileRef) -> (fallout: bool)
        requires
            self@.valid(t),
        ensures
            fallout == self@.has_fallout(t),
    {
        self.tiles[t as usize].fallout
    }

    pub fn magnitude(&self, t: TileRef) -> (magnitude: u8)
        requires
            self@.valid(t),
        ensures
            magnitude == self@.tiles[t as int].magnitude,
    {
        self.tiles[t as usize].magnitude
    }

    pub fn terrain_type(&self, t: TileRef) -> (terrain: TerrainType)
        requires
            self@.valid(t),
        ensures
            terrain == self@.terrain_type(t),
    {
        let tile: Tile = self.tiles[t as usize];
        if !tile.land {
            TerrainType::Water
        } else if tile.magnitude < 10 {
            TerrainType::Plains
        } else if tile.magnitude < 20 {
            TerrainType::Highland
        } else if tile.magnitude < IMPASSABLE_MAGNITUDE {
            TerrainType::Mountain
        } else {
            TerrainType::Impassable
        }
    }

    pub fn is_on_edge_of_map(&self, t: TileRef) -> (edge: bool)
        requires
            self@.wf(),
            self@.valid(t),
        ensures
            edge == self@.on_edge(t),
    {
        let x: u32 = self.x(t);
        let y: u32 = self.y(t);
        x == 0 || x == self.width - 1 || y == 0 || y == self.height - 1
    }

    /// The tiles above, below, left and right of `t`.
    pub fn neighbors4(&self, t: TileRef) -> (neighbors: Vec<TileRef>)
        requires
            self@.wf(),
            self@.valid(t),
        ensures
            neighbors@ == self@.neighbors4(t),
            neighbors@.len() <= 4,
            forall|i: int| 0 <= i < neighbors@.len() ==> self@.valid(#[trigger] neighbors@[i]),
    {
        proof {
            self@.lemma_neighbors4(t);
            self@.lemma_len();
            self@.lemma_xy(t);
            self@.lemma_step(t as int);
        }
        let mut neighbors: Vec<TileRef> = Vec::new();
        let x: u32 = self.x(t);
        if t >= self.width {
            neighbors.push(t - self.width);
        }
        if (t as u64 + self.width as u64) < self.tiles.len() as u64 {
            neighbors.push(t + self.width);
        }
        if x != 0 {
            neighbors.push(t - 1);
        }
        if x != self.width - 1 {
            neighbors.push(t + 1);
        }
        assert(neighbors@ =~= self@.neighbors4(t));
        neighbors
    }

    fn push_neighbor(&self, t: TileRef, dx: i32, dy: i32, neighbors: &mut Vec<TileRef>)
        requires
            self@.wf(),
            self@.valid(t),
            -1 <= dx <= 1,
            -1 <= dy <= 1,
        ensures
            final(neighbors)@ == old(neighbors)@ + self@.neighbor_at(t, dx as int, dy as int),
    {
        let x: i32 = self.x(t) as i32 + dx;
        let y: i32 = self.y(t) as i32 + dy;
        if self.is_valid_coord(x, y) {
            neighbors.push(self.ref_xy(x as u32, y as u32));
        }
        assert(neighbors@ =~= old(neighbors)@ + self@.neighbor_at(t, dx as int, dy as int));
    }

    /// The eight tiles around `t`.
    pub fn neighbors8(&self, t: TileRef) -> (neighbors: Vec<TileRef>)
        requires
            self@.wf(),
            self@.valid(t),
        ensures
            neighbors@ == self@.neighbors8(t),
            neighbors@.len() <= 8,
            forall|i: int| 0 <= i < neighbors@.len() ==> self@.valid(#[trigger] neighbors@[i]),
    {
        let mut neighbors: Vec<TileRef> = Vec::new();
        self.push_neighbor(t, -1, -1, &mut neighbors);
        self.push_neighbor(t, -1, 0, &mut neighbors);
        self.push_neighbor(t, -1, 1, &mut neighbors);
        self.push_neighbor(t, 0, -1, &mut neighbors);
        self.push_neighbor(t, 0, 1, &mut neighbors);
        self.push_neighbor(t, 1, -1, &mut neighbors);
        self.push_neighbor(t, 1, 0, &mut neighbors);
        self.push_neighbor(t, 1, 1, &mut neighbors);
        assert(neighbors@ =~= self@.neighbors8(t));
        proof {
            self@.lemma_neighbors8(t);
        }
        neighbors
    }

    pub fn is_ocean_shore(&self, t: TileRef) -> (shore: bool)
        requires
            self@.wf(),
            self@.valid(t),
        ensures
            shore == self@.is_ocean_shore(t),
    {
        if !self.is_land(t) {
            return false;
        }
        let neighbors = self.neighbors4(t);
        for i in 0..neighbors.len()
            invariant
                self@.valid(t),
                self@.is_land(t),
                neighbors@ == self@.neighbors4(t),
                forall|k: int| 0 <= k < neighbors@.len() ==> self@.valid(#[trigger] neighbors@[k]),
                forall|k: int| 0 <= k < i ==> !self@.is_ocean(#[trigger] self@.neighbors4(t)[k]),
        {
            if self.is_ocean(neighbors[i]) {
                assert(self@.is_ocean(self@.neighbors4(t)[i as int]));
                return true;
            }
        }
        false
    }

    pub fn manhattan_dist(&self, a: TileRef, b: TileRef) -> (d: u32)
        requires
            self@.wf(),
            self@.valid(a),
            self@.valid(b),
        ensures
            d == self@.manhattan(a, b),
            d <= 131068,
    {
        proof {
            self@.lemma_distances(a, b);
        }
        let (ax, ay, bx, by) = (self.x(a), self.y(a), self.x(b), self.y(b));
        let dx: u32 = if ax < bx {
            bx - ax
        } else {
            ax - bx
        };
        let dy: u32 = if ay < by {
            by - ay
        } else {
            ay - by
        };
        dx + dy
    }

    pub fn euclidean_dist_squared(&self, a: TileRef, b: TileRef) -> (d: u64)
        requires
            self@.wf(),
            self@.valid(a),
            self@.valid(b),
        ensures
            d == self@.dist2(a, b),
            d <= 8589672450,
    {
        proof {
            self@.lemma_distances(a, b);
        }
        let (ax, ay, bx, by) = (self.x(a), self.y(a), self.x(b), self.y(b));
        let dx: u64 = if ax < bx {
            (bx - ax) as u64
        } else {
            (ax - bx) as u64
        };
        let dy: u64 = if ay < by {
            (by - ay) as u64
        } else {
            (ay - by) as u64
        };
        assert(dx * dx <= 65535 * 65535 && dy * dy <= 65535 * 65535) by (nonlinear_arith)
            requires
                dx <= 65535,
                dy <= 65535,
        ;
        dx * dx + dy * dy
    }

    /// Whether a tile next to `t` belongs to this body of water.
    pub fn has_water_component(&self, t: TileRef, component: u32) -> (touches: bool)
        requires
            self@.wf(),
            self@.valid(t),
        ensures
            touches == self@.touches_component(t, component),
    {
        let neighbors = self.neighbors4(t);
        for i in 0..neighbors.len()
            invariant
                self@.valid(t),
                neighbors@ == self@.neighbors4(t),
                forall|k: int| 0 <= k < neighbors@.len() ==> self@.valid(#[trigger] neighbors@[k]),
                forall|k: int|
                    0 <= k < i ==> !(self@.is_water(#[trigger] self@.neighbors4(t)[k])
                        && self@.tiles[self@.neighbors4(t)[k] as int].component == Some(component)),
        {
            let n: TileRef = neighbors[i];
            let tile: Tile = self.tiles[n as usize];
            if !tile.land {
                if let Some(c) = tile.component {
                    if c == component {
                        assert(self@.is_water(self@.neighbors4(t)[i as int]));
                        return true;
                    }
                }
            }
        }
        false
    }

    /// The number of land tiles.
    pub fn num_land_tiles(&self) -> (n: u32)
        requires
            self@.wf(),
        ensures
            n == self@.count_land(self@.tiles.len()),
    {
        proof {
            self@.lemma_len();
        }
        let mut n: u32 = 0;
        for i in 0..self.tiles.len()
            invariant
                self.tiles@.len() <= 0xfffe_0001,
                n == self@.count_land(i as nat),
                n <= i,
        {
            if self.tiles[i].land {
                n += 1;
            }
        }
        n
    }

    /// The number of tiles with fallout.
    pub fn num_tiles_with_fallout(&self) -> (n: u32)
        requires
            self@.wf(),
        ensures
            n == self@.count_fallout(self@.tiles.len()),
    {
        proof {
            self@.lemma_len();
        }
        let mut n: u32 = 0;
        for i in 0..self.tiles.len()
            invariant
                self.tiles@.len() <= 0xfffe_0001,
                n == self@.count_fallout(i as nat),
                n <= i,
        {
            if self.tiles[i].fallout {
                n += 1;
            }
        }
        n
    }

    pub fn set_owner_id(&mut self, t: TileRef, owner: u16)
        requires
            old(self)@.valid(t),
        ensures
            final(self)@ == old(self)@.with_owner(t, owner),
            final(self).width == old(self).width,
            final(self).height == old(self).height,
    {
        let mut tile: Tile = self.tiles[t as usize];
        tile.owner = owner;
        self.tiles.set(t as usize, tile);
    }

    pub fn set_fallout(&mut self, t: TileRef, fallout: bool)
        requires
            old(self)@.valid(t),
        ensures
            final(self)@ == (MapView {
                tiles: old(self)@.tiles.update(
                    t as int,
                    Tile { fallout, ..old(self)@.tiles[t as int] },
                ),
                ..old(self)@
            }),
            final(self).width == old(self).width,
            final(self).height == old(self).height,
    {
        let mut tile: Tile = self.tiles[t as usize];
        tile.fallout = fallout;
        self.tiles.set(t as usize, tile);
    }
}

} // verus!
