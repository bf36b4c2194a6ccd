//! Land: borders, conquest, and the ways between players.

use vstd::prelude::*;

use crate::game::{border_views, Game, GameView, MAX_PLAYERS};
use crate::map::{MapView, Tile};
use crate::ordered_tiles::TileRef;
use crate::state::Player;

verus! {

/// The tile of `tiles` that is nearest to `t`, the first where several are.
pub open spec fn nearest(map: MapView, tiles: Seq<TileRef>, t: TileRef) -> Option<TileRef>
    decreases tiles.len(),
{
    if tiles.len() == 0 {
        None
    } else {
        match nearest(map, tiles.drop_last(), t) {
            Some(best) => if map.manhattan(tiles.last(), t) < map.manhattan(best, t) {
                Some(tiles.last())
            } else {
                Some(best)
            },
            None => Some(tiles.last()),
        }
    }
}

/// A pair of tiles, one of `a` and one of `b`, that are nearest to each other, the first
/// where several are.
pub open spec fn nearest_pair(map: MapView, a: Seq<TileRef>, b: Seq<TileRef>) -> Option<
    (TileRef, TileRef),
>
    decreases a.len(),
{
    if a.len() == 0 {
        None
    } else {
        match (nearest_pair(map, a.drop_last(), b), nearest(map, b, a.last())) {
            (Some(best), Some(near)) => if map.manhattan(near, a.last()) < map.manhattan(
                best.1,
                best.0,
            ) {
                Some((a.last(), near))
            } else {
                Some(best)
            },
            (None, Some(near)) => Some((a.last(), near)),
            (best, None) => best,
        }
    }
}

/// The smallest rectangle around tiles.
#[derive(Clone, Copy, Debug, PartialEq, Eq, Structural)]
pub struct BBox {
    pub min_x: u32,
    pub min_y: u32,
    pub max_x: u32,
    pub max_y: u32,
}

impl BBox {
    /// The rectangle widened to hold a point.
    pub open spec fn widened(self, x: u32, y: u32) -> BBox {
        BBox {
            min_x: if x < self.min_x {
                x
            } else {
                self.min_x
            },
            min_y: if y < self.min_y {
                y
            } else {
                self.min_y
            },
            max_x: if x > self.max_x {
                x
            } else {
                self.max_x
            },
            max_y: if y > self.max_y {
                y
            } else {
                self.max_y
            },
        }
    }

    pub fn widen(self, x: u32, y: u32) -> (wide: BBox)
        ensures
            wide == self.widened(x, y),
    {
        BBox {
            min_x: if x < self.min_x {
                x
            } else {
                self.min_x
            },
            min_y: if y < self.min_y {
                y
            } else {
                self.min_y
            },
            max_x: if x > self.max_x {
                x
            } else {
                self.max_x
            },
            max_y: if y > self.max_y {
                y
            } else {
                self.max_y
            },
        }
    }

    /// Whether the rectangle holds all of `inner`.
    pub open spec fn holds(self, inner: BBox) -> bool {
        self.min_x <= inner.min_x && self.min_y <= inner.min_y && self.max_x >= inner.max_x
            && self.max_y >= inner.max_y
    }
}

impl MapView {
    /// The smallest rectangle around `tiles`.
    pub open spec fn bbox(self, tiles: Seq<TileRef>) -> Option<BBox>
        decreases tiles.len(),
    {
        if tiles.len() == 0 {
            None
        } else {
            let x = self.x(tiles.last()) as u32;
            let y = self.y(tiles.last()) as u32;
            match self.bbox(tiles.drop_last()) {
                Some(b) => Some(b.widened(x, y)),
                None => Some(BBox { min_x: x, min_y: y, max_x: x, max_y: y }),
            }
        }
    }

    /// A rectangle on the map.
    pub open spec fn holds_box(self, b: BBox) -> bool {
        b.min_x <= b.max_x < self.width && b.min_y <= b.max_y < self.height
    }

    /// The tile in the middle of a rectangle.
    pub open spec fn middle(self, b: BBox) -> TileRef {
        self.at(b.min_x + (b.max_x - b.min_x) / 2, b.min_y + (b.max_y - b.min_y) / 2)
    }

    /// Whether a tile next to `a` and one next to `b` are of one body of water.
    pub open spec fn share_water(self, a: TileRef, b: TileRef) -> bool {
        exists|i: int|
            0 <= i < self.neighbors4(a).len() && self.is_water(#[trigger] self.neighbors4(a)[i])
                && self.tiles[self.neighbors4(a)[i] as int].component is Some
                && self.touches_component(
                b,
                self.tiles[self.neighbors4(a)[i] as int].component->0,
            )
    }

    /// Whether the owner of `t` owns it up to its border: a tile next to it is somebody
    /// else's.
    pub open spec fn is_border(self, t: TileRef) -> bool {
        exists|i: int|
            0 <= i < self.neighbors4(t).len() && self.owner(#[trigger] self.neighbors4(t)[i])
                != self.owner(t)
    }

    /// Whether `t`, or a tile next to it, is `x`.
    pub open spec fn around(self, t: TileRef) -> Seq<TileRef> {
        seq![t] + self.neighbors4(t)
    }
}

/// The borders after `x` was looked at again.
pub open spec fn refreshed(map: MapView, borders: Seq<Seq<TileRef>>, x: TileRef) -> Seq<
    Seq<TileRef>,
> {
    let owner = map.owner(x);
    if 1 <= owner <= borders.len() {
        let border = borders[owner - 1];
        borders.update(
            owner - 1,
            if map.is_border(x) {
                crate::ordered_tiles::with(border, x)
            } else {
                crate::ordered_tiles::without(border, x)
            },
        )
    } else {
        borders
    }
}

/// The borders after each of `tiles` was looked at again, in order.
pub open spec fn refreshed_all(
    map: MapView,
    borders: Seq<Seq<TileRef>>,
    tiles: Seq<TileRef>,
) -> Seq<Seq<TileRef>>
    decreases tiles.len(),
{
    if tiles.len() == 0 {
        borders
    } else {
        refreshed(map, refreshed_all(map, borders, tiles.drop_last()), tiles.last())
    }
}

/// The players after `sid` gained or lost a tile.
pub open spec fn tallied(players: Seq<Player>, sid: u16, tick: u32, gained: bool) -> Seq<Player> {
    if 1 <= sid <= players.len() {
        let p = players[sid - 1];
        players.update(
            sid - 1,
            Player {
                tiles_owned: if gained && p.tiles_owned < 0xfffe_0001 {
                    (p.tiles_owned + 1) as i64
                } else if !gained && p.tiles_owned > 0 {
                    (p.tiles_owned - 1) as i64
                } else {
                    p.tiles_owned
                },
                last_tile_change: tick,
                ..p
            },
        )
    } else {
        players
    }
}

impl GameView {
    /// The border tiles of a player that lie on a shore.
    pub open spec fn shores(self, sid: u16) -> Seq<TileRef> {
        self.border(sid).filter(|t: TileRef| self.map.is_shore(t))
    }

    /// Whether a tile next to the land of `a` belongs to `b`.
    pub open spec fn shares_border(self, a: u16, b: u16) -> bool {
        exists|i: int, j: int|
            0 <= i < self.border(a).len() && 0 <= j < self.map.neighbors4(self.border(a)[i]).len()
                && self.map.owner(#[trigger] self.map.neighbors4(self.border(a)[i])[j]) == b
    }

    /// The tile from which a boat of `sid` can reach `dst`: the first of its shores on a
    /// body of water that `dst` lies on.
    pub open spec fn boat_source(self, sid: u16, dst: TileRef) -> Option<TileRef> {
        crate::lists::first_where(self.shores(sid), |t: TileRef| self.map.share_water(t, dst))
    }

    /// The players after `t` went from its owner to `sid`, 0 standing for nobody.
    pub open spec fn recounted(self, t: TileRef, sid: u16) -> Seq<Player> {
        tallied(tallied(self.players, self.map.owner(t), self.tick, false), sid, self.tick, true)
    }

    /// The borders after the owner of `t` gave it up.
    pub open spec fn parted(self, t: TileRef) -> Seq<Seq<TileRef>> {
        let before = self.map.owner(t);
        if 1 <= before <= self.borders.len() {
            self.borders.update(
                before - 1,
                crate::ordered_tiles::without(self.borders[before - 1], t),
            )
        } else {
            self.borders
        }
    }

    /// The game after `t` went to `sid`, 0 standing for nobody. `cleared` tells whether
    /// the change clears the tile's fallout.
    pub open spec fn transferring(self, t: TileRef, sid: u16, cleared: bool) -> GameView {
        let map = MapView {
            tiles: self.map.tiles.update(
                t as int,
                Tile {
                    owner: sid,
                    fallout: self.map.tiles[t as int].fallout && !cleared,
                    ..self.map.tiles[t as int]
                },
            ),
            ..self.map
        };
        GameView {
            map,
            players: self.recounted(t, sid),
            borders: refreshed_all(map, self.parted(t), map.around(t)),
            ..self
        }
    }

    /// Every player has a border, on a map that is one.
    pub open spec fn charted(self) -> bool {
        self.map.wf() && self.borders.len() == self.players.len() && self.players.len()
            <= MAX_PLAYERS
    }

    /// Every border holds exactly the player's tiles that lie next to somebody else's.
    pub open spec fn borders_exact(self) -> bool {
        forall|sid: u16, t: TileRef|
            self.has(sid) && self.map.valid(t) ==> (#[trigger] self.borders[sid - 1].contains(t)
                == (self.map.owner(t) == sid && self.map.is_border(t)))
    }
}

proof fn lemma_refreshed(
    map: MapView,
    borders: Seq<Seq<TileRef>>,
    tiles: Seq<TileRef>,
    p: int,
    x: TileRef,
)
    requires
        0 <= p < borders.len() <= 65535,
    ensures
        refreshed_all(map, borders, tiles).len() == borders.len(),
        refreshed_all(map, borders, tiles)[p].contains(x) == (if tiles.contains(x) && map.owner(x)
            == p + 1 {
            map.is_border(x)
        } else {
            borders[p].contains(x)
        }),
    decreases tiles.len(),
{
    if tiles.len() > 0 {
        let front = tiles.drop_last();
        let y = tiles.last();
        lemma_refreshed(map, borders, front, p, x);
        let held = refreshed_all(map, borders, front);
        let border = held[p];
        crate::ordered_tiles::lemma_without_member(border, y, x);
        assert(crate::ordered_tiles::with(border, y).contains(x) == (border.contains(x) || x == y)) by {
            let grown = border.push(y);
            assert(grown[border.len() as int] == y);
            if border.contains(x) {
                let k = choose|k: int| 0 <= k < border.len() && border[k] == x;
                assert(grown[k] == x);
            }
            if grown.contains(x) && x != y {
                let k = choose|k: int| 0 <= k < grown.len() && grown[k] == x;
                assert(border[k] == x);
            }
        }
        assert(tiles.contains(x) == (front.contains(x) || x == y)) by {
            assert(tiles[tiles.len() - 1] == y);
            if front.contains(x) {
                let k = choose|k: int| 0 <= k < front.len() && front[k] == x;
                assert(tiles[k] == x);
            }
            if tiles.contains(x) && x != y {
                let k = choose|k: int| 0 <= k < tiles.len() && tiles[k] == x;
                assert(front[k] == x);
            }
        }
    }
}

/// A tile that changes hands leaves every border exact: it holds just the player's tiles
/// that lie next to somebody else's.
pub proof fn law_transfer_keeps_borders_exact(g: GameView, t: TileRef, sid: u16, cleared: bool)
    requires
        g.charted(),
        g.borders_exact(),
        g.map.valid(t),
    ensures
        g.transferring(t, sid, cleared).borders_exact(),
{
    let after = g.transferring(t, sid, cleared);
    let map = after.map;
    let before = g.map.owner(t);
    let parted = g.parted(t);
    let tiles = map.around(t);
    assert forall|who: u16, x: TileRef| after.has(who) && after.map.valid(x) implies (
    #[trigger] after.borders[who - 1].contains(x) == (map.owner(x) == who && map.is_border(x))) by {
        let p = who - 1;
        assert(g.has(who) && g.map.valid(x));
        lemma_refreshed(map, parted, tiles, p, x);
        assert(g.borders[who - 1].contains(x) == (g.map.owner(x) == who && g.map.is_border(x)));
        crate::ordered_tiles::lemma_without_member(g.borders[p], t, x);
        assert(tiles.contains(x) == (x == t || g.map.neighbors4(t).contains(x))) by {
            assert(tiles[0] == t);
            if g.map.neighbors4(t).contains(x) {
                let k = choose|k: int|
                    0 <= k < g.map.neighbors4(t).len() && g.map.neighbors4(t)[k] == x;
                assert(tiles[k + 1] == x);
            }
            if tiles.contains(x) && x != t {
                let k = choose|k: int| 0 <= k < tiles.len() && tiles[k] == x;
                assert(g.map.neighbors4(t)[k - 1] == x);
            }
        }
        if !tiles.contains(x) {
            g.map.lemma_neighbors4(x);
            let around = g.map.neighbors4(x);
            assert(map.neighbors4(x) == around);
            assert forall|k: int| 0 <= k < around.len() implies map.owner(#[trigger] around[k])
                == g.map.owner(around[k]) by {
                assert(g.map.neighbors4(around[k]).contains(x));
            }
            assert(map.is_border(x) == g.map.is_border(x)) by {
                if g.map.is_border(x) {
                    let k = choose|k: int|
                        0 <= k < around.len() && g.map.owner(#[trigger] around[k]) != g.map.owner(x);
                    assert(map.owner(map.neighbors4(x)[k]) != map.owner(x));
                }
                if map.is_border(x) {
                    let k = choose|k: int|
                        0 <= k < map.neighbors4(x).len() && map.owner(
                            #[trigger] map.neighbors4(x)[k],
                        ) != map.owner(x);
                    assert(g.map.owner(g.map.neighbors4(x)[k]) != g.map.owner(x));
                }
            }
        }
    }
}

proof fn lemma_with_valid(map: MapView, border: Seq<TileRef>, x: TileRef)
    requires
        map.valid(x),
        forall|j: int| 0 <= j < border.len() ==> map.valid(#[trigger] border[j]),
    ensures
        forall|j: int|
            0 <= j < crate::ordered_tiles::with(border, x).len() ==> map.valid(
                #[trigger] crate::ordered_tiles::with(border, x)[j],
            ),
{
}

/// The members that are left when one is taken out are on the map too.
pub proof fn lemma_without_valid(map: MapView, border: Seq<TileRef>, x: TileRef)
    requires
        forall|j: int| 0 <= j < border.len() ==> map.valid(#[trigger] border[j]),
    ensures
        forall|j: int|
            0 <= j < crate::ordered_tiles::without(border, x).len() ==> map.valid(
                #[trigger] crate::ordered_tiles::without(border, x)[j],
            ),
    decreases border.len(),
{
    let left = crate::ordered_tiles::without(border, x);
    assert forall|j: int| 0 <= j < left.len() implies map.valid(#[trigger] left[j]) by {
        assert(left.contains(left[j]));
        crate::ordered_tiles::lemma_without_member(border, x, left[j]);
        let k = choose|k: int| 0 <= k < border.len() && border[k] == left[j];
        assert(map.valid(border[k]));
    }
}

impl Game {
    /// A copy of the border tiles of a player.
    pub fn border_tiles_for(&self, sid: u16) -> (tiles: Vec<TileRef>)
        requires
            self@.wf(),
        ensures
            tiles@ == self@.border(sid),
            forall|i: int| 0 <= i < tiles@.len() ==> self@.map.valid(#[trigger] tiles@[i]),
    {
        if sid >= 1 && sid as usize <= self.borders.len() {
            let tiles = self.borders[sid as usize - 1].iter();
            assert(tiles@ == self@.borders[sid - 1]);
            assert forall|i: int| 0 <= i < tiles@.len() implies self@.map.valid(#[trigger] tiles@[i]) by {
                assert(self@.map.valid(self@.borders[sid - 1][i]));
            }
            tiles
        } else {
            Vec::new()
        }
    }

    /// The border tiles of a player that lie on a shore.
    pub fn shore_border_tiles(&self, sid: u16) -> (shores: Vec<TileRef>)
        requires
            self@.wf(),
        ensures
            shores@ == self@.shores(sid),
            forall|i: int| 0 <= i < shores@.len() ==> self@.map.valid(#[trigger] shores@[i]),
    {
        let border = self.border_tiles_for(sid);
        let ghost p = |t: TileRef| self@.map.is_shore(t);
        let mut shores: Vec<TileRef> = Vec::new();
        assert(border@.take(0).filter(p) =~= Seq::empty()) by {
            reveal(Seq::filter);
        }
        for i in 0..border.len()
            invariant
                forall|k: int| 0 <= k < border@.len() ==> self@.map.valid(#[trigger] border@[k]),
                p == (|t: TileRef| self@.map.is_shore(t)),
                shores@ == border@.take(i as int).filter(p),
                forall|k: int| 0 <= k < shores@.len() ==> self@.map.valid(#[trigger] shores@[k]),
        {
            proof {
                crate::lists::lemma_filter_step(border@, p, i as int);
            }
            if self.map.is_shore(border[i]) {
                shores.push(border[i]);
            }
        }
        proof {
            crate::lists::lemma_take_all(border@);
        }
        shores
    }

    /// The smallest rectangle around `tiles`.
    pub fn bounding_box(&self, tiles: &Vec<TileRef>) -> (bbox: Option<BBox>)
        requires
            self@.map.wf(),
            forall|i: int| 0 <= i < tiles@.len() ==> self@.map.valid(#[trigger] tiles@[i]),
        ensures
            bbox == self@.map.bbox(tiles@),
            bbox is None == (tiles@.len() == 0),
            bbox is Some ==> self@.map.holds_box(bbox->0),
    {
        let mut bbox: Option<BBox> = None;
        assert(tiles@.take(0) =~= Seq::<TileRef>::empty());
        for i in 0..tiles.len()
            invariant
                self@.map.wf(),
                forall|k: int| 0 <= k < tiles@.len() ==> self@.map.valid(#[trigger] tiles@[k]),
                bbox == self@.map.bbox(tiles@.take(i as int)),
                bbox is None == (i == 0),
                bbox is Some ==> self@.map.holds_box(bbox->0),
        {
            assert(tiles@.take(i + 1).drop_last() =~= tiles@.take(i as int));
            let x: u32 = self.map.x(tiles[i]);
            let y: u32 = self.map.y(tiles[i]);
            bbox = match bbox {
                Some(b) => Some(b.widen(x, y)),
                None => Some(BBox { min_x: x, min_y: y, max_x: x, max_y: y }),
            };
        }
        assert(tiles@.take(tiles@.len() as int) =~= tiles@);
        bbox
    }

    /// The tile in the middle of a rectangle.
    pub fn middle_of(&self, b: BBox) -> (t: TileRef)
        requires
            self@.map.wf(),
            self@.map.holds_box(b),
        ensures
            t == self@.map.middle(b),
            self@.map.valid(t),
    {
        self.map.ref_xy(b.min_x + (b.max_x - b.min_x) / 2, b.min_y + (b.max_y - b.min_y) / 2)
    }

    /// The tile of `tiles` that is nearest to `t`, and its distance; the highest number
    /// stands for the distance where there is none.
    pub fn closest_tile(&self, tiles: &Vec<TileRef>, t: TileRef) -> (closest: (Option<TileRef>, u32))
        requires
            self@.map.wf(),
            self@.map.valid(t),
            forall|i: int| 0 <= i < tiles@.len() ==> self@.map.valid(#[trigger] tiles@[i]),
        ensures
            closest.0 == nearest(self@.map, tiles@, t),
            closest.0 is Some ==> self@.map.valid(closest.0->0) && closest.1 == self@.map.manhattan(
                closest.0->0,
                t,
            ) && closest.1 <= 131068,
            closest.0 is None ==> closest.1 == u32::MAX,
            closest.0 is None == (tiles@.len() == 0),
    {
        let mut best: Option<TileRef> = None;
        let mut distance: u32 = u32::MAX;
        assert(tiles@.take(0) =~= Seq::<TileRef>::empty());
        for i in 0..tiles.len()
            invariant
                self@.map.wf(),
                self@.map.valid(t),
                forall|k: int| 0 <= k < tiles@.len() ==> self@.map.valid(#[trigger] tiles@[k]),
                best == nearest(self@.map, tiles@.take(i as int), t),
                best is None == (i == 0),
                best is Some ==> self@.map.valid(best->0) && distance == self@.map.manhattan(
                    best->0,
                    t,
                ) && distance <= 131068,
                best is None ==> distance == u32::MAX,
        {
            assert(tiles@.take(i + 1).drop_last() =~= tiles@.take(i as int));
            let d: u32 = self.map.manhattan_dist(tiles[i], t);
            if d < distance {
                best = Some(tiles[i]);
                distance = d;
            }
        }
        assert(tiles@.take(tiles@.len() as int) =~= tiles@);
        (best, distance)
    }

    /// A pair of tiles, one of `a` and one of `b`, that are nearest to each other.
    pub fn closest_two_tiles(&self, a: &Vec<TileRef>, b: &Vec<TileRef>) -> (pair: Option<
        (TileRef, TileRef),
    >)
        requires
            self@.map.wf(),
            forall|i: int| 0 <= i < a@.len() ==> self@.map.valid(#[trigger] a@[i]),
            forall|i: int| 0 <= i < b@.len() ==> self@.map.valid(#[trigger] b@[i]),
        ensures
            pair == nearest_pair(self@.map, a@, b@),
            pair is Some ==> self@.map.valid((pair->0).0) && self@.map.valid((pair->0).1),
    {
        let mut best: Option<(TileRef, TileRef)> = None;
        let mut distance: u32 = u32::MAX;
        assert(a@.take(0) =~= Seq::<TileRef>::empty());
        for i in 0..a.len()
            invariant
                self@.map.wf(),
                forall|k: int| 0 <= k < a@.len() ==> self@.map.valid(#[trigger] a@[k]),
                forall|k: int| 0 <= k < b@.len() ==> self@.map.valid(#[trigger] b@[k]),
                best == nearest_pair(self@.map, a@.take(i as int), b@),
                best is Some ==> self@.map.valid((best->0).0) && self@.map.valid((best->0).1)
                    && distance == self@.map.manhattan((best->0).1, (best->0).0) && distance <= 131068,
                best is None ==> distance == u32::MAX,
        {
            assert(a@.take(i + 1).drop_last() =~= a@.take(i as int));
            let (near, d) = self.closest_tile(b, a[i]);
            if let Some(n) = near {
                if d < distance {
                    best = Some((a[i], n));
                    distance = d;
                }
            }
        }
        assert(a@.take(a@.len() as int) =~= a@);
        best
    }

    /// Whether a tile next to the land of `a` belongs to `b`.
    pub fn shares_land_border_with(&self, a: u16, b: u16) -> (shares: bool)
        requires
            self@.wf(),
        ensures
            shares == self@.shares_border(a, b),
    {
        let border = self.border_tiles_for(a);
        for i in 0..border.len()
            invariant
                self@.wf(),
                border@ == self@.border(a),
                forall|k: int| 0 <= k < border@.len() ==> self@.map.valid(#[trigger] border@[k]),
                forall|k: int, j: int|
                    0 <= k < i && 0 <= j < self@.map.neighbors4(self@.border(a)[k]).len()
                        ==> self@.map.owner(
                        #[trigger] self@.map.neighbors4(self@.border(a)[k])[j],
                    ) != b,
        {
            let neighbors = self.map.neighbors4(border[i]);
            for j in 0..neighbors.len()
                invariant
                    self@.wf(),
                    i < border@.len(),
                    border@ == self@.border(a),
                    neighbors@ == self@.map.neighbors4(border@[i as int]),
                    forall|k: int|
                        0 <= k < neighbors@.len() ==> self@.map.valid(#[trigger] neighbors@[k]),
                    forall|k: int|
                        0 <= k < j ==> self@.map.owner(
                            #[trigger] self@.map.neighbors4(self@.border(a)[i as int])[k],
                        ) != b,
            {
                if self.map.owner_id(neighbors[j]) == b {
                    assert(self@.map.owner(
                        self@.map.neighbors4(self@.border(a)[i as int])[j as int],
                    ) == b);
                    return true;
                }
            }
        }
        false
    }

    fn shares_water(&self, a: TileRef, b: TileRef) -> (shares: bool)
        requires
            self@.map.wf(),
            self@.map.valid(a),
            self@.map.valid(b),
        ensures
            shares == self@.map.share_water(a, b),
    {
        let neighbors = self.map.neighbors4(a);
        for i in 0..neighbors.len()
            invariant
                self@.map.wf(),
                self@.map.valid(a),
                self@.map.valid(b),
                neighbors@ == self@.map.neighbors4(a),
                forall|k: int|
                    0 <= k < neighbors@.len() ==> self@.map.valid(#[trigger] neighbors@[k]),
                forall|k: int|
                    0 <= k < i ==> !(self@.map.is_water(#[trigger] self@.map.neighbors4(a)[k])
                        && self@.map.tiles[self@.map.neighbors4(a)[k] as int].component is Some
                        && self@.map.touches_component(
                        b,
                        self@.map.tiles[self@.map.neighbors4(a)[k] as int].component->0,
                    )),
        {
            let n: TileRef = neighbors[i];
            let tile: Tile = self.map.tiles[n as usize];
            if !tile.land {
                if let Some(c) = tile.component {
                    if self.map.has_water_component(b, c) {
                        assert(self@.map.is_water(self@.map.neighbors4(a)[i as int]));
                        return true;
                    }
                }
            }
        }
        false
    }

    /// The tile from which a boat of `sid` can reach `dst`.
    pub fn can_build_transport_ship(&self, sid: u16, dst: TileRef) -> (source: Option<TileRef>)
        requires
            self@.wf(),
            self@.map.valid(dst),
        ensures
            source == self@.boat_source(sid, dst),
    {
        let shores = self.shore_border_tiles(sid);
        let ghost p = |t: TileRef| self@.map.share_water(t, dst);
        proof {
            crate::lists::lemma_take_all(shores@);
        }
        for i in 0..shores.len()
            invariant
                self@.wf(),
                self@.map.valid(dst),
                shores@ == self@.shores(sid),
                forall|k: int| 0 <= k < shores@.len() ==> self@.map.valid(#[trigger] shores@[k]),
                p == (|t: TileRef| self@.map.share_water(t, dst)),
                crate::lists::first_where(shores@, p) == crate::lists::first_where(
                    shores@.skip(i as int),
                    p,
                ),
        {
            if self.shares_water(shores[i], dst) {
                proof {
                    crate::lists::lemma_first_where_found(shores@, p, i as int);
                }
                return Some(shores[i]);
            }
            proof {
                crate::lists::lemma_first_where_step(shores@, p, i as int);
            }
        }
        None
    }

    fn lies_on_border(&self, t: TileRef) -> (border: bool)
        requires
            self@.map.wf(),
            self@.map.valid(t),
        ensures
            border == self@.map.is_border(t),
    {
        let owner: u16 = self.map.owner_id(t);
        let neighbors = self.map.neighbors4(t);
        for i in 0..neighbors.len()
            invariant
                owner == self@.map.owner(t),
                neighbors@ == self@.map.neighbors4(t),
                forall|k: int|
                    0 <= k < neighbors@.len() ==> self@.map.valid(#[trigger] neighbors@[k]),
                forall|k: int|
                    0 <= k < i ==> self@.map.owner(#[trigger] self@.map.neighbors4(t)[k])
                        == owner,
        {
            if self.map.owner_id(neighbors[i]) != owner {
                assert(self@.map.owner(self@.map.neighbors4(t)[i as int]) != owner);
                return true;
            }
        }
        false
    }

    fn refresh_border(&mut self, x: TileRef)
        requires
            old(self).wf(),
            old(self)@.map.valid(x),
        ensures
            final(self).wf(),
            final(self)@ == (GameView {
                borders: refreshed(old(self)@.map, old(self)@.borders, x),
                ..old(self)@
            }),
    {
        let owner: u16 = self.map.owner_id(x);
        let ghost before = self.borders@;
        if owner >= 1 && owner as usize <= self.borders.len() {
            let at: usize = owner as usize - 1;
            let on_border = self.lies_on_border(x);
            let ghost border = self@.borders[at as int];
            assert(border == before[at as int]@);
            assert forall|j: int| 0 <= j < border.len() implies self@.map.valid(#[trigger] border[j]) by {
                assert(self@.map.valid(self@.borders[at as int][j]));
            }
            proof {
                lemma_with_valid(self@.map, border, x);
                lemma_without_valid(self@.map, border, x);
            }
            if on_border {
                self.borders[at].insert(x);
            } else {
                self.borders[at].remove(x);
            }
            assert(border_views(self.borders@) =~= refreshed(
                old(self)@.map,
                border_views(before),
                x,
            ));
            assert forall|i: int, j: int|
                0 <= i < self@.borders.len() && 0 <= j < self@.borders[i].len() implies self@.map.valid(
                #[trigger] self@.borders[i][j],
            ) by {
                if i != at {
                    assert(self@.borders[i] == old(self)@.borders[i]);
                }
            }
        }
    }

    fn tally(&mut self, sid: u16, gained: bool)
        requires
            old(self).wf(),
        ensures
            final(self).wf(),
            final(self)@ == (GameView {
                players: tallied(old(self)@.players, sid, old(self)@.tick, gained),
                ..old(self)@
            }),
    {
        let tick: u32 = self.tick;
        if sid >= 1 && sid as usize <= self.players.len() {
            let at: usize = sid as usize - 1;
            assert(self@.players[at as int].wf());
            let tiles: i64 = self.players[at].tiles_owned;
            let now: i64 = if gained && tiles < 0xfffe_0001 {
                tiles + 1
            } else if !gained && tiles > 0 {
                tiles - 1
            } else {
                tiles
            };
            self.players[at].tiles_owned = now;
            self.players[at].last_tile_change = tick;
        }
    }

    fn part_border(&mut self, t: TileRef)
        requires
            old(self).wf(),
            old(self)@.map.valid(t),
        ensures
            final(self).wf(),
            final(self)@ == (GameView { borders: old(self)@.parted(t), ..old(self)@ }),
    {
        let before: u16 = self.map.owner_id(t);
        let ghost held = self.borders@;
        if before >= 1 && before as usize <= self.borders.len() {
            let at: usize = before as usize - 1;
            let ghost border = self@.borders[at as int];
            assert(border == held[at as int]@);
            assert forall|j: int| 0 <= j < border.len() implies self@.map.valid(#[trigger] border[j]) by {
                assert(self@.map.valid(self@.borders[at as int][j]));
            }
            proof {
                lemma_without_valid(self@.map, border, t);
            }
            self.borders[at].remove(t);
            assert(border_views(self.borders@) =~= border_views(held).update(
                at as int,
                crate::ordered_tiles::without(border, t),
            ));
            assert forall|i: int, j: int|
                0 <= i < self@.borders.len() && 0 <= j < self@.borders[i].len() implies self@.map.valid(
                #[trigger] self@.borders[i][j],
            ) by {
                if i != at {
                    assert(self@.borders[i] == old(self)@.borders[i]);
                }
            }
        }
    }

    fn set_tile(&mut self, t: TileRef, tile: Tile)
        requires
            old(self).wf(),
            old(self)@.map.valid(t),
        ensures
            final(self).wf(),
            final(self)@ == (GameView {
                map: MapView {
                    tiles: old(self)@.map.tiles.update(t as int, tile),
                    ..old(self)@.map
                },
                ..old(self)@
            }),
    {
        self.map.tiles.set(t as usize, tile);
        assert forall|i: int, j: int|
            0 <= i < self@.borders.len() && 0 <= j < self@.borders[i].len() implies self@.map.valid(
            #[trigger] self@.borders[i][j],
        ) by {
            assert(old(self)@.map.valid(old(self)@.borders[i][j]));
        }
    }

    fn refresh_around(&mut self, t: TileRef)
        requires
            old(self).wf(),
            old(self)@.map.valid(t),
        ensures
            final(self).wf(),
            final(self)@ == (GameView {
                borders: refreshed_all(
                    old(self)@.map,
                    old(self)@.borders,
                    old(self)@.map.around(t),
                ),
                ..old(self)@
            }),
    {
        let ghost start = self@;
        let ghost map = self@.map;
        self.refresh_border(t);
        let neighbors = self.map.neighbors4(t);
        assert(refreshed_all(map, start.borders, seq![t]) == self@.borders) by {
            assert(seq![t].drop_last() =~= Seq::<TileRef>::empty());
            assert(refreshed_all(map, start.borders, seq![t].drop_last()) == start.borders);
        }
        assert(map.around(t).take(1) =~= seq![t]);
        for i in 0..neighbors.len()
            invariant
                self.wf(),
                self@.map == map,
                map.valid(t),
                neighbors@ == map.neighbors4(t),
                forall|k: int| 0 <= k < neighbors@.len() ==> map.valid(#[trigger] neighbors@[k]),
                self@ == (GameView { borders: self@.borders, ..start }),
                self@.borders == refreshed_all(map, start.borders, map.around(t).take(i + 1)),
        {
            assert(map.around(t).take(i + 2).drop_last() =~= map.around(t).take(i + 1));
            assert(map.around(t).take(i + 2).last() == neighbors@[i as int]);
            self.refresh_border(neighbors[i]);
        }
        assert(map.around(t).take((neighbors@.len() + 1) as int) =~= map.around(t));
    }

    /// Hands `t` to `sid`, 0 standing for nobody.
    fn transfer(&mut self, t: TileRef, sid: u16, cleared: bool)
        requires
            old(self).wf(),
            old(self)@.map.valid(t),
        ensures
            final(self).wf(),
            final(self)@ == old(self)@.transferring(t, sid, cleared),
    {
        self.tally(self.map.owner_id(t), false);
        self.tally(sid, true);
        self.part_border(t);
        let mut tile: Tile = self.map.tiles[t as usize];
        tile.owner = sid;
        tile.fallout = tile.fallout && !cleared;
        self.set_tile(t, tile);
        self.refresh_around(t);
    }

    /// Gives `t` to `sid`, which clears the tile's fallout.
    pub fn conquer(&mut self, sid: u16, t: TileRef)
        requires
            old(self).wf(),
            old(self)@.map.valid(t),
        ensures
            final(self).wf(),
            final(self)@ == old(self)@.transferring(t, sid, true),
    {
        self.transfer(t, sid, true);
    }

    /// Takes `t` from its owner.
    pub fn relinquish_tile(&mut self, t: TileRef)
        requires
            old(self).wf(),
            old(self)@.map.valid(t),
        ensures
            final(self).wf(),
            final(self)@ == old(self)@.transferring(t, 0, false),
    {
        self.transfer(t, 0, false);
    }
}

pub proof fn lemma_transfer_keeps_charts(g: GameView, t: TileRef, sid: u16, cleared: bool)
    requires
        g.charted(),
        g.map.valid(t),
    ensures
        g.transferring(t, sid, cleared).charted(),
        g.transferring(t, sid, cleared).map.tiles.len() == g.map.tiles.len(),
        g.transferring(t, sid, cleared).players.len() == g.players.len(),
{
    let after = g.transferring(t, sid, cleared);
    if g.players.len() > 0 {
        lemma_refreshed(after.map, g.parted(t), after.map.around(t), 0, t);
    } else {
        lemma_refreshed_len(after.map, g.parted(t), after.map.around(t));
    }
}

proof fn lemma_refreshed_len(map: MapView, borders: Seq<Seq<TileRef>>, tiles: Seq<TileRef>)
    ensures
        refreshed_all(map, borders, tiles).len() == borders.len(),
    decreases tiles.len(),
{
    if tiles.len() > 0 {
        lemma_refreshed_len(map, borders, tiles.drop_last());
    }
}

} // verus!
