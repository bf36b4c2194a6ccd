//! Random tiles of a player's land.

use vstd::prelude::*;

use crate::game::{Game, GameView};
use crate::game_land::BBox;
use crate::map::{GameMap, MapView};
use crate::ordered_tiles::TileRef;
use crate::prng::PseudoRandom;

verus! {

/// How many places are looked at before a player's tiles are listed.
pub const TERRITORY_TRIES: u32 = 100;

/// A player's tiles are listed where it has no more than this.
pub const MAX_LISTED_TILES: usize = 100;

impl MapView {
    /// Tiles of this owner.
    pub open spec fn owned_by(self, sid: u16) -> spec_fn(TileRef) -> bool {
        |t: TileRef| self.owner(t) == sid
    }

    /// All tiles of the map.
    pub open spec fn all_tiles(self) -> Seq<TileRef> {
        Seq::new(self.tiles.len(), |i: int| i as TileRef)
    }

    /// The tiles of an owner, row by row.
    pub open spec fn territory(self, sid: u16) -> Seq<TileRef> {
        self.all_tiles().filter(self.owned_by(sid))
    }
}

impl GameView {
    /// A tile of `sid` that is found in the box in `tries` tries, and the random state
    /// after that.
    pub open spec fn land_tile(self, rng: u64, sid: u16, b: BBox, tries: nat) -> (Option<TileRef>, u64)
        decreases tries,
    {
        if tries == 0 {
            (None, rng)
        } else {
            let x = crate::prng::int_drawn(rng, b.min_x as int, b.max_x as int);
            let rng1 = crate::prng::next_state(rng);
            let y = crate::prng::int_drawn(rng1, b.min_y as int, b.max_y as int);
            let rng2 = crate::prng::next_state(rng1);
            if self.map.valid_coord(x, y) && self.map.owner(self.map.at(x, y)) == sid {
                (Some(self.map.at(x, y)), rng2)
            } else {
                self.land_tile(rng2, sid, b, (tries - 1) as nat)
            }
        }
    }

    /// A random tile of a player, and the random state after it was chosen.
    pub open spec fn random_tile(self, rng: u64, sid: u16, b: BBox) -> (Option<TileRef>, u64) {
        let (found, after) = self.land_tile(rng, sid, b, TERRITORY_TRIES as nat);
        if found is Some {
            (found, after)
        } else if self.has(sid) && 0 < self.map.territory(sid).len() <= MAX_LISTED_TILES {
            crate::prng::element_drawn(after, self.map.territory(sid))
        } else {
            (None, after)
        }
    }

    /// At most `n` random tiles of a player, and the random state after that.
    pub open spec fn random_tiles_in(self, rng: u64, sid: u16, b: BBox, n: nat) -> (Seq<TileRef>, u64)
        decreases n,
    {
        if n == 0 {
            (Seq::empty(), rng)
        } else {
            let (tiles, state) = self.random_tiles_in(rng, sid, b, (n - 1) as nat);
            let (tile, after) = self.random_tile(state, sid, b);
            (match tile {
                Some(t) => tiles.push(t),
                None => tiles,
            }, after)
        }
    }

    pub open spec fn random_tiles(self, rng: u64, sid: u16, n: nat) -> (Seq<TileRef>, u64) {
        match self.map.bbox(self.border(sid)) {
            Some(b) => self.random_tiles_in(rng, sid, b, n),
            None => (Seq::empty(), rng),
        }
    }
}

/// The tiles of an owner, row by row.
pub fn owned_tiles(map: &GameMap, sid: u16) -> (tiles: Vec<TileRef>)
    requires
        map@.wf(),
    ensures
        tiles@ == map@.territory(sid),
        forall|i: int| 0 <= i < tiles@.len() ==> map@.valid(#[trigger] tiles@[i]),
{
    let ghost p = map@.owned_by(sid);
    let ghost all = map@.all_tiles();
    let n: usize = map.tiles.len();
    proof {
        map@.lemma_len();
    }
    let mut tiles: Vec<TileRef> = Vec::new();
    assert(all.take(0).filter(p) =~= Seq::empty()) by {
        reveal(Seq::filter);
    }
    for i in 0..n
        invariant
            n == map@.tiles.len(),
            n <= 0xfffe_0001,
            p == map@.owned_by(sid),
            all == map@.all_tiles(),
            tiles@ == all.take(i as int).filter(p),
            forall|k: int| 0 <= k < tiles@.len() ==> map@.valid(#[trigger] tiles@[k]),
    {
        let t: TileRef = i as TileRef;
        proof {
            crate::lists::lemma_filter_step(all, p, i as int);
        }
        if map.owner_id(t) == sid {
            tiles.push(t);
        }
    }
    proof {
        crate::lists::lemma_take_all(all);
    }
    tiles
}

/// The smallest rectangle around a player's land.
pub fn border_bbox(game: &Game, small_id: u16) -> (bbox: Option<BBox>)
    requires
        game@.wf(),
    ensures
        bbox == game@.map.bbox(game@.border(small_id)),
        bbox is Some ==> game@.map.holds_box(bbox->0),
{
    let border = game.border_tiles_for(small_id);
    game.bounding_box(&border)
}

/// A random tile of a player.
pub fn rand_territory_tile(game: &Game, random: &mut PseudoRandom, small_id: u16, bbox: &BBox) -> (tile:
    Option<TileRef>)
    requires
        game@.wf(),
        game@.map.holds_box(*bbox),
    ensures
        (tile, final(random).state) == game@.random_tile(old(random).state, small_id, *bbox),
        tile is Some ==> game@.map.valid(tile->0),
{
    let ghost goal = game@.land_tile(random.state, small_id, *bbox, TERRITORY_TRIES as nat);
    for k in 0..TERRITORY_TRIES
        invariant
            game@.wf(),
            game@.map.holds_box(*bbox),
            game@.map.width <= 65535,
            game@.map.height <= 65535,
            goal == game@.land_tile(
                old(random).state,
                small_id,
                *bbox,
                TERRITORY_TRIES as nat,
            ),
            goal == game@.land_tile(random.state, small_id, *bbox, (TERRITORY_TRIES - k) as nat),
    {
        let x: i32 = random.next_int(bbox.min_x as i32, bbox.max_x as i32);
        let y: i32 = random.next_int(bbox.min_y as i32, bbox.max_y as i32);
        if game.map.is_valid_coord(x, y) {
            let t: TileRef = game.map.ref_xy(x as u32, y as u32);
            if game.map.owner_id(t) == small_id {
                return Some(t);
            }
        }
    }
    if game.player_by_small_id(small_id).is_none() {
        return None;
    }
    let owned = owned_tiles(&game.map, small_id);
    if owned.len() > 0 && owned.len() <= MAX_LISTED_TILES {
        return random.rand_element(owned.as_slice());
    }
    None
}

/// At most `n` random tiles of a player.
pub fn rand_territory_tile_array(game: &Game, random: &mut PseudoRandom, small_id: u16, n: usize) -> (
    tiles: Vec<TileRef>)
    requires
        game@.wf(),
    ensures
        (tiles@, final(random).state) == game@.random_tiles(old(random).state, small_id, n as nat),
        forall|i: int| 0 <= i < tiles@.len() ==> game@.map.valid(#[trigger] tiles@[i]),
        tiles@.len() <= n,
{
    let mut tiles: Vec<TileRef> = Vec::new();
    let bbox: BBox = match border_bbox(game, small_id) {
        Some(b) => b,
        None => {
            return tiles;
        },
    };
    let ghost start = random.state;
    for i in 0..n
        invariant
            game@.wf(),
            game@.map.holds_box(bbox),
            (tiles@, random.state) == game@.random_tiles_in(start, small_id, bbox, i as nat),
            forall|k: int| 0 <= k < tiles@.len() ==> game@.map.valid(#[trigger] tiles@[k]),
            tiles@.len() <= i,
    {
        match rand_territory_tile(game, random, small_id, &bbox) {
            Some(t) => {
                tiles.push(t);
            },
            None => {},
        }
    }
    tiles
}

} // verus!
