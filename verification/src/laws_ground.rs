//! What holds of tiles and distances on the map, and of friends and boats.

use vstd::prelude::*;

use crate::game::GameView;
use crate::game_land::BBox;
use crate::map::{tile_of_byte, MapView};
use crate::ordered_tiles::TileRef;

verus! {

/// The byte of a tile: from 128 on it is land, the bits below tell shore and ocean, and the
/// rest is the magnitude. Nobody owns the tile, and no nuke has hit it.
pub proof fn law_tile_bytes(byte: u8)
    ensures
        tile_of_byte(byte).land == (byte >= 128),
        tile_of_byte(byte).shoreline == ((byte / 64) % 2 == 1),
        tile_of_byte(byte).ocean == ((byte / 32) % 2 == 1),
        tile_of_byte(byte).magnitude == byte % 32,
        tile_of_byte(byte).owner == 0,
        !tile_of_byte(byte).fallout,
        tile_of_byte(byte).component is Some == (byte < 128),
{
    assert((byte & 0x80 != 0) == (byte >= 128)) by (bit_vector);
    assert((byte & 0x80 == 0) == (byte < 128)) by (bit_vector);
    assert((byte & 0x40 != 0) == ((byte / 64) % 2 == 1)) by (bit_vector);
    assert((byte & 0x20 != 0) == ((byte / 32) % 2 == 1)) by (bit_vector);
    assert(byte & 0x1f == byte % 32) by (bit_vector);
}

/// Distances: both are symmetric and none only from a tile to itself. Steps count rows and
/// columns, the square of the straight distance adds their squares, and a detour is never
/// shorter.
pub proof fn law_distances(map: MapView, a: TileRef, b: TileRef, c: TileRef)
    requires
        map.wf(),
        map.valid(a),
        map.valid(b),
        map.valid(c),
    ensures
        map.manhattan(a, b) == map.manhattan(b, a),
        map.dist2(a, b) == map.dist2(b, a),
        (map.manhattan(a, b) == 0) == (a == b),
        (map.dist2(a, b) == 0) == (a == b),
        map.manhattan(a, c) <= map.manhattan(a, b) + map.manhattan(b, c),
        map.dist2(a, b) == (map.x(a) - map.x(b)) * (map.x(a) - map.x(b)) + (map.y(a) - map.y(b)) * (
        map.y(a) - map.y(b)),
        map.x(a) >= map.x(b) && map.y(a) >= map.y(b) ==> map.manhattan(a, b) == (map.x(a) - map.x(
            b,
        )) + (map.y(a) - map.y(b)),
        map.dist2(a, b) <= map.manhattan(a, b) * map.manhattan(a, b),
{
    map.lemma_xy(a);
    map.lemma_xy(b);
    let (dx, dy) = (map.x(a) - map.x(b), map.y(a) - map.y(b));
    let (p, q) = (crate::map::gap(map.x(a), map.x(b)), crate::map::gap(map.y(a), map.y(b)));
    assert((-dx) * (-dx) == dx * dx && (-dy) * (-dy) == dy * dy) by (nonlinear_arith);
    assert(p >= 0 && q >= 0);
    assert(p * p >= 0 && q * q >= 0 && (p * p == 0 ==> p == 0) && (q * q == 0 ==> q == 0))
        by (nonlinear_arith)
        requires
            p >= 0,
            q >= 0,
    ;
    assert(p * p + q * q <= (p + q) * (p + q)) by (nonlinear_arith)
        requires
            p >= 0,
            q >= 0,
    ;
    if p == 0 && q == 0 {
        assert(map.at(map.x(a), map.y(a)) == map.at(map.x(b), map.y(b)));
    }
    assert(0int * 0 == 0);
}

/// The neighbors of a tile are just the tiles one step away.
pub proof fn law_neighbors(map: MapView, t: TileRef, x: TileRef)
    requires
        map.wf(),
        map.valid(t),
        map.valid(x),
    ensures
        map.neighbors4(t).contains(x) == (map.manhattan(t, x) == 1),
{
    map.lemma_xy(t);
    map.lemma_xy(x);
    map.lemma_len();
    let (w, h) = (map.width, map.height);
    let (a, b) = (map.x(t), map.y(t));
    let (c, d) = (map.x(x), map.y(x));
    map.lemma_at(a, b);
    map.lemma_at(c, d);
    let all = map.neighbors4(t);
    assert((t >= w) == (b >= 1)) by (nonlinear_arith)
        requires
            t as int == b * w + a,
            0 <= a < w,
            0 <= b,
    ;
    assert((t + w < w * h) == (b + 1 < h)) by (nonlinear_arith)
        requires
            t as int == b * w + a,
            0 <= a < w,
            0 <= b < h,
    ;
    let up = if t >= w {
        seq![(t - w) as TileRef]
    } else {
        Seq::empty()
    };
    let down = if t + w < map.tiles.len() {
        seq![(t + w) as TileRef]
    } else {
        Seq::empty()
    };
    let left = if a != 0 {
        seq![(t - 1) as TileRef]
    } else {
        Seq::empty()
    };
    let right = if a != w - 1 {
        seq![(t + 1) as TileRef]
    } else {
        Seq::empty()
    };
    assert(all == up + down + left + right);
    assert((b - 1) * w + a == t - w) by (nonlinear_arith)
        requires
            t as int == b * w + a,
    ;
    assert((b + 1) * w + a == t + w) by (nonlinear_arith)
        requires
            t as int == b * w + a,
    ;
    if b >= 1 {
        map.lemma_at(a, b - 1);
        assert(map.at(a, b - 1) == (t - w) as TileRef);
        assert(all[0] == (t - w) as TileRef);
    }
    if b + 1 < h {
        map.lemma_at(a, b + 1);
        assert(map.at(a, b + 1) == (t + w) as TileRef);
        assert(all[up.len() as int] == (t + w) as TileRef);
    }
    if a != 0 {
        map.lemma_at(a - 1, b);
        assert(map.at(a - 1, b) == (t - 1) as TileRef);
        assert(all[(up.len() + down.len()) as int] == (t - 1) as TileRef);
    }
    if a != w - 1 {
        map.lemma_at(a + 1, b);
        assert(map.at(a + 1, b) == (t + 1) as TileRef);
        assert(all[(up.len() + down.len() + left.len()) as int] == (t + 1) as TileRef);
    }
    if all.contains(x) {
        let k = choose|k: int| 0 <= k < all.len() && all[k] == x;
        assert(x == (t - w) as TileRef && b >= 1 || x == (t + w) as TileRef && b + 1 < h || x == (t
            - 1) as TileRef && a != 0 || x == (t + 1) as TileRef && a != w - 1);
    }
    if map.manhattan(t, x) == 1 {
        assert(c == a && d == b - 1 || c == a && d == b + 1 || c == a - 1 && d == b || c == a + 1
            && d == b);
    }
}

proof fn lemma_row(map: MapView, x0: int, y: int, n: nat, x: TileRef)
    ensures
        map.row(x0, y, n).contains(x) == (exists|i: int|
            0 <= i < n && x == #[trigger] map.at(x0 + i, y)),
{
    let row = map.row(x0, y, n);
    if row.contains(x) {
        let i = choose|i: int| 0 <= i < row.len() && row[i] == x;
        assert(x == map.at(x0 + i, y));
    }
    if exists|i: int| 0 <= i < n && x == #[trigger] map.at(x0 + i, y) {
        let i = choose|i: int| 0 <= i < n && x == #[trigger] map.at(x0 + i, y);
        assert(row[i] == x);
    }
}

proof fn lemma_block(map: MapView, x0: int, y0: int, n: nat, m: nat, x: TileRef)
    ensures
        map.block(x0, y0, n, m).contains(x) == (exists|i: int, j: int|
            0 <= i < n && 0 <= j < m && x == #[trigger] map.at(x0 + i, y0 + j)),
    decreases m,
{
    let all = map.block(x0, y0, n, m);
    if m > 0 {
        let front = map.block(x0, y0, n, (m - 1) as nat);
        let last = map.row(x0, y0 + m - 1, n);
        lemma_block(map, x0, y0, n, (m - 1) as nat, x);
        lemma_row(map, x0, y0 + m - 1, n, x);
        if all.contains(x) {
            let k = choose|k: int| 0 <= k < all.len() && all[k] == x;
            if k < front.len() {
                assert(front[k] == x);
                assert(front.contains(x));
            } else {
                assert(last[k - front.len()] == x);
                assert(last.contains(x));
                let i = choose|i: int| 0 <= i < n && x == #[trigger] map.at(x0 + i, y0 + m - 1);
                assert(x == map.at(x0 + i, y0 + (m - 1)));
            }
        }
        if exists|i: int, j: int|
            0 <= i < n && 0 <= j < m && x == #[trigger] map.at(x0 + i, y0 + j) {
            let (i, j) = choose|i: int, j: int|
                0 <= i < n && 0 <= j < m && x == #[trigger] map.at(x0 + i, y0 + j);
            if j < m - 1 {
                assert(front.contains(x));
                let k = choose|k: int| 0 <= k < front.len() && front[k] == x;
                assert(all[k] == x);
            } else {
                assert(x == map.at(x0 + i, y0 + m - 1));
                assert(last.contains(x));
                let k = choose|k: int| 0 <= k < last.len() && last[k] == x;
                assert(all[front.len() + k] == x);
            }
        }
    }
}

/// The square around a tile holds just the tiles whose row and column are near enough.
pub proof fn law_square(map: MapView, t: TileRef, r: int, x: TileRef)
    requires
        map.wf(),
        map.valid(t),
        map.valid(x),
        r >= 0,
    ensures
        map.square(t, r).contains(x) == (-r <= map.x(x) - map.x(t) <= r && -r <= map.y(x) - map.y(t)
            <= r),
{
    map.lemma_xy(t);
    map.lemma_xy(x);
    let x0 = crate::game_blast::low_end(map.x(t), r);
    let y0 = crate::game_blast::low_end(map.y(t), r);
    let n = (crate::game_blast::high_end(map.x(t), r, map.width) - x0 + 1) as nat;
    let m = (crate::game_blast::high_end(map.y(t), r, map.height) - y0 + 1) as nat;
    lemma_block(map, x0, y0, n, m, x);
    if map.square(t, r).contains(x) {
        let (i, j) = choose|i: int, j: int|
            0 <= i < n && 0 <= j < m && x == #[trigger] map.at(x0 + i, y0 + j);
        map.lemma_at(x0 + i, y0 + j);
    }
    if -r <= map.x(x) - map.x(t) <= r && -r <= map.y(x) - map.y(t) <= r {
        let (i, j) = (map.x(x) - x0, map.y(x) - y0);
        assert(x == map.at(x0 + i, y0 + j));
    }
}

/// The territory of an owner holds just the tiles that it owns.
pub proof fn law_territory(map: MapView, sid: u16, t: TileRef)
    requires
        map.wf(),
        map.valid(t),
    ensures
        map.territory(sid).contains(t) == (map.owner(t) == sid),
{
    map.lemma_len();
    crate::lists::lemma_filter_members(map.all_tiles(), map.owned_by(sid));
    assert(map.all_tiles()[t as int] == t);
}

/// Land is counted by its tiles, and so is fallout.
pub proof fn law_counts(map: MapView, n: nat)
    requires
        n < map.tiles.len(),
    ensures
        map.count_land(n + 1) == map.count_land(n) + (if map.tiles[n as int].land {
            1int
        } else {
            0
        }),
        map.count_fallout(n + 1) == map.count_fallout(n) + (if map.tiles[n as int].fallout {
            1int
        } else {
            0
        }),
        map.count_land(0) == 0 && map.count_fallout(0) == 0,
{
}

/// Water is shared both ways.
pub proof fn law_shared_shores(map: MapView, a: TileRef, b: TileRef)
    ensures
        map.share_water(a, b) ==> map.share_water(b, a),
{
    if map.share_water(a, b) {
        let i = choose|i: int|
            0 <= i < map.neighbors4(a).len() && map.is_water(#[trigger] map.neighbors4(a)[i])
                && map.tiles[map.neighbors4(a)[i] as int].component is Some
                && map.touches_component(
                b,
                map.tiles[map.neighbors4(a)[i] as int].component->0,
            );
        let body = map.tiles[map.neighbors4(a)[i] as int].component->0;
        let j = choose|j: int|
            0 <= j < map.neighbors4(b).len() && map.is_water(#[trigger] map.neighbors4(b)[j])
                && map.tiles[map.neighbors4(b)[j] as int].component == Some(body);
        assert(map.is_water(map.neighbors4(a)[i]));
        assert(map.touches_component(a, body));
        assert(map.is_water(map.neighbors4(b)[j]));
    }
}

/// A boat leaves from a shore of its owner that lies on water with the goal, and there is one
/// wherever the owner has such a shore.
pub proof fn law_boats(game: GameView, sid: u16, dst: TileRef)
    ensures
        match game.boat_source(sid, dst) {
            Some(src) => {
                &&& game.border(sid).contains(src)
                &&& game.map.is_land(src)
                &&& game.map.tiles[src as int].shoreline
                &&& game.map.share_water(src, dst)
            },
            None => forall|t: TileRef| #[trigger]
                game.border(sid).contains(t) && game.map.is_shore(t) ==> !game.map.share_water(
                    t,
                    dst,
                ),
        },
{
    let shore = |t: TileRef| game.map.is_shore(t);
    let near = |t: TileRef| game.map.share_water(t, dst);
    let shores = game.shores(sid);
    crate::lists::lemma_filter_members(game.border(sid), shore);
    crate::lists::lemma_first_where(shores, near);
    match game.boat_source(sid, dst) {
        Some(src) => {
            let k = crate::lists::lemma_first_where_at(shores, near);
            assert(shores[k] == src);
            assert(shores.contains(src));
        },
        None => {
            assert forall|t: TileRef| #[trigger]
                game.border(sid).contains(t) && game.map.is_shore(t) implies !game.map.share_water(
                t,
                dst,
            ) by {
                assert(shore(t));
                assert(shores.contains(t));
                let k = choose|k: int| 0 <= k < shores.len() && shores[k] == t;
                assert(!near(shores[k]));
            }
        },
    }
}

/// Friends are friends both ways; everyone is a friend of itself, of its allies and of its
/// team.
pub proof fn law_friends(game: GameView, a: u16, b: u16)
    ensures
        game.is_friendly(a, a),
        game.is_friendly(a, b) == game.is_friendly(b, a),
        game.allied(a, b) == game.allied(b, a),
        game.on_same_team(a, b) == game.on_same_team(b, a),
        game.allied(a, b) ==> game.is_friendly(a, b),
        game.on_same_team(a, b) ==> game.is_friendly(a, b),
        a != b && !game.allied(a, b) && !game.on_same_team(a, b) ==> !game.is_friendly(a, b),
        game.can_trade(a, b) == game.can_trade(b, a),
{
    if game.allied(a, b) {
        let i = choose|i: int|
            0 <= i < game.alliances.len() && (#[trigger] game.alliances[i]).joins(a, b);
        assert(game.alliances[i].joins(b, a));
    }
    if game.allied(b, a) {
        let i = choose|i: int|
            0 <= i < game.alliances.len() && (#[trigger] game.alliances[i]).joins(b, a);
        assert(game.alliances[i].joins(a, b));
    }
}

/// The middle of a rectangle lies in it, as far from one side as from the other, to a tile.
pub proof fn law_middle(map: MapView, b: BBox)
    requires
        map.wf(),
        map.holds_box(b),
    ensures
        ({
            let t = map.middle(b);
            &&& b.min_x <= map.x(t) <= b.max_x
            &&& b.min_y <= map.y(t) <= b.max_y
            &&& 0 <= (b.max_x - map.x(t)) - (map.x(t) - b.min_x) <= 1
            &&& 0 <= (b.max_y - map.y(t)) - (map.y(t) - b.min_y) <= 1
        }),
{
    map.lemma_at(
        b.min_x + (b.max_x - b.min_x) / 2,
        b.min_y + (b.max_y - b.min_y) / 2,
    );
}

/// Land shares a border where a tile of the one lies next to a tile of the other.
pub proof fn law_shared_borders(game: GameView, a: u16, b: u16)
    ensures
        game.shares_border(a, b) == (exists|t: TileRef, x: TileRef|
            game.border(a).contains(t) && #[trigger] game.map.neighbors4(t).contains(x)
                && game.map.owner(x) == b),
{
    if game.shares_border(a, b) {
        let (i, j) = choose|i: int, j: int|
            0 <= i < game.border(a).len() && 0 <= j < game.map.neighbors4(game.border(a)[i]).len()
                && game.map.owner(#[trigger] game.map.neighbors4(game.border(a)[i])[j]) == b;
        let t = game.border(a)[i];
        assert(game.border(a).contains(t));
        assert(game.map.neighbors4(t).contains(game.map.neighbors4(t)[j]));
    }
    if exists|t: TileRef, x: TileRef|
        game.border(a).contains(t) && #[trigger] game.map.neighbors4(t).contains(x)
            && game.map.owner(x) == b {
        let (t, x) = choose|t: TileRef, x: TileRef|
            game.border(a).contains(t) && #[trigger] game.map.neighbors4(t).contains(x)
                && game.map.owner(x) == b;
        let i = choose|i: int| 0 <= i < game.border(a).len() && game.border(a)[i] == t;
        let j = choose|j: int|
            0 <= j < game.map.neighbors4(t).len() && game.map.neighbors4(t)[j] == x;
        assert(game.map.owner(game.map.neighbors4(game.border(a)[i])[j]) == b);
    }
}

} // verus!
