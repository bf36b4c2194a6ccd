//! How nations and tribes choose whom to attack, and with how much.

use vstd::prelude::*;

use crate::game::{Game, GameView};
use crate::map::MapView;
use crate::ordered_tiles::TileRef;

verus! {

/// How far over the water a player looks from its shore.
pub const SHORE_REACH: i32 = 5;

/// Of the shore tiles, one in so many is looked from.
pub const SHORE_STEP: usize = 10;

/// `s` in turn.
pub open spec fn flatten_neighbors(map: MapView, tiles: Seq<TileRef>) -> Seq<TileRef>
    decreases tiles.len(),
{
    if tiles.len() == 0 {
        Seq::empty()
    } else {
        flatten_neighbors(map, tiles.drop_last()) + map.neighbors4(tiles.last())
    }
}

impl MapView {
    /// Land that can be entered.
    pub open spec fn open_land(self, t: TileRef) -> bool {
        self.is_land(t) && !self.is_impassable(t)
    }

    /// Land without an owner that can be entered and holds no fallout.
    pub open spec fn free_land(self, t: TileRef) -> bool {
        self.open_land(t) && self.owner(t) == 0 && !self.has_fallout(t)
    }

    /// The tile that lies `SHORE_REACH` tiles from `t` in this direction, where the first
    /// tile on the way is water.
    pub open spec fn across(self, t: TileRef, dx: int, dy: int) -> Seq<TileRef> {
        if self.valid_coord(self.x(t) + dx, self.y(t) + dy) && self.is_water(
            self.at(self.x(t) + dx, self.y(t) + dy),
        ) && self.valid_coord(self.x(t) + dx * SHORE_REACH, self.y(t) + dy * SHORE_REACH) {
            seq![self.at(self.x(t) + dx * SHORE_REACH, self.y(t) + dy * SHORE_REACH)]
        } else {
            Seq::empty()
        }
    }

    /// The tiles over the water from `t`: up, down, left and right.
    pub open spec fn across_all(self, t: TileRef) -> Seq<TileRef> {
        self.across(t, 0, -1) + self.across(t, 0, 1) + self.across(t, -1, 0) + self.across(t, 1, 0)
    }
}

/// The tiles over the water from every tenth of `shores`, beginning with the first.
pub open spec fn across_sampled(map: MapView, shores: Seq<TileRef>, n: int) -> Seq<TileRef>
    decreases n,
{
    if n <= 0 {
        Seq::empty()
    } else {
        across_sampled(map, shores, n - 1) + (if (n - 1) % (SHORE_STEP as int) == 0 {
            map.across_all(shores[n - 1])
        } else {
            Seq::empty()
        })
    }
}

/// Everybody but `sid` and nobody.
pub open spec fn is_other(sid: u16) -> spec_fn(u16) -> bool {
    |id: u16| id != sid && id != 0
}

/// Everybody but `sid`.
pub open spec fn is_not(sid: u16) -> spec_fn(u16) -> bool {
    |id: u16| id != sid
}

impl GameView {
    /// No friend of `sid`.
    pub open spec fn enemy_of(self, sid: u16) -> spec_fn(u16) -> bool {
        |id: u16| id != sid && !self.is_friendly(sid, id)
    }

    /// A friend of `sid`.
    pub open spec fn friend_of(self, sid: u16) -> spec_fn(u16) -> bool {
        |id: u16| id != sid && self.is_friendly(sid, id)
    }

    /// A player behind its strength.
    pub open spec fn by_troops(self) -> spec_fn(u16) -> (i64, u16) {
        |id: u16| (self.troops(id) as i64, id)
    }

    /// The tiles next to the border of a player, in the order of the border.
    pub open spec fn adjacent(self, sid: u16) -> Seq<TileRef> {
        flatten_neighbors(self.map, self.border(sid))
    }

    /// The tiles that a player sees over the water.
    pub open spec fn overseas(self, sid: u16) -> Seq<TileRef> {
        across_sampled(self.map, self.shores(sid), self.shores(sid).len() as int)
    }

    /// Land next to the player's that nobody owns and no nuke has hit.
    pub open spec fn borders_free_land(self, sid: u16) -> bool {
        crate::lists::some_where(self.adjacent(sid), |t: TileRef| self.map.free_land(t))
    }

    /// Land next to the player's that nobody owns.
    pub open spec fn borders_unowned_land(self, sid: u16) -> bool {
        crate::lists::some_where(
            self.adjacent(sid),
            |t: TileRef| self.map.open_land(t) && self.map.owner(t) == 0,
        )
    }

    /// Land over the water that nobody owns and no nuke has hit.
    pub open spec fn sees_free_land(self, sid: u16) -> bool {
        crate::lists::some_where(self.overseas(sid), |t: TileRef| self.map.free_land(t))
    }

    /// Land next to the player's that nobody owns and a nuke has hit.
    pub open spec fn borders_nuked_land(self, sid: u16) -> bool {
        !self.config.disabled(crate::unit_type::MISSILE_SILO) && crate::lists::some_where(
            self.adjacent(sid),
            |t: TileRef| self.map.is_land(t) && self.map.owner(t) == 0 && self.map.has_fallout(t),
        )
    }

    /// The owners of `tiles`.
    pub open spec fn owners_of(self, tiles: Seq<TileRef>) -> Seq<u16> {
        tiles.map_values(|t: TileRef| self.map.owner(t))
    }

    /// The owners of the open land next to a player's.
    pub open spec fn land_owners(self, sid: u16) -> Seq<u16> {
        self.owners_of(self.adjacent(sid).filter(|t: TileRef| self.map.open_land(t)))
    }

    /// The owners of the land that a player sees over the water, where no nuke has hit it.
    pub open spec fn sea_owners(self, sid: u16) -> Seq<u16> {
        self.owners_of(
            self.overseas(sid).filter(
                |t: TileRef| self.map.open_land(t) && !self.map.has_fallout(t),
            ),
        )
    }

    /// The other players that own land next to a player's, by id.
    pub open spec fn near_land_ids(self, sid: u16) -> Seq<u16> {
        crate::lists::sorted_ids(
            crate::lists::distinct(self.land_owners(sid).filter(is_other(sid))),
        )
    }

    /// The other players that own land next to a player's or over the water, by id.
    pub open spec fn near_ids(self, sid: u16) -> Seq<u16> {
        crate::lists::sorted_ids(
            crate::lists::distinct(
                (self.land_owners(sid) + self.sea_owners(sid)).filter(is_other(sid)),
            ),
        )
    }

    /// Whoever owns land next to a player's or over the water, in the order in which the
    /// player comes upon them. Nobody counts as one of them, except for land that a nuke
    /// has hit.
    pub open spec fn near_in_order(self, sid: u16) -> Seq<u16> {
        crate::lists::distinct(
            (self.owners_of(
                self.adjacent(sid).filter(
                    |t: TileRef|
                        self.map.open_land(t) && !(self.map.owner(t) == 0 && self.map.has_fallout(t)),
                ),
            ) + self.sea_owners(sid)).filter(is_not(sid)),
        )
    }

    /// The other players at a player's border or over the water, in the order in which the
    /// player comes upon them.
    pub open spec fn first_seen(self, sid: u16) -> Seq<u16> {
        crate::lists::distinct(
            (self.land_owners(sid) + self.near_in_order(sid)).filter(is_other(sid)),
        )
    }

    /// The other players at a player's border or over the water, weakest first; those of
    /// equal strength in the order in which the player comes upon them.
    pub open spec fn bordering(self, sid: u16) -> Seq<u16> {
        crate::lists::payloads(
            crate::lists::sort_by_key(self.first_seen(sid).map_values(self.by_troops())),
        )
    }

    /// The members of `bordering` that are no friends.
    pub open spec fn bordering_enemies(self, sid: u16) -> Seq<u16> {
        self.bordering(sid).filter(self.enemy_of(sid))
    }

    /// The members of `bordering` that are friends.
    pub open spec fn bordering_friends(self, sid: u16) -> Seq<u16> {
        self.bordering(sid).filter(self.friend_of(sid))
    }
}

/// The tiles next to the border of a player.
fn adjacent_tiles(game: &Game, sid: u16) -> (tiles: Vec<TileRef>)
    requires
        game@.wf(),
    ensures
        tiles@ == game@.adjacent(sid),
        forall|i: int| 0 <= i < tiles@.len() ==> game@.map.valid(#[trigger] tiles@[i]),
{
    let border = game.border_tiles_for(sid);
    let mut tiles: Vec<TileRef> = Vec::new();
    assert(border@.take(0) =~= Seq::<TileRef>::empty());
    for i in 0..border.len()
        invariant
            game@.wf(),
            forall|k: int| 0 <= k < border@.len() ==> game@.map.valid(#[trigger] border@[k]),
            tiles@ == flatten_neighbors(game@.map, border@.take(i as int)),
            forall|k: int| 0 <= k < tiles@.len() ==> game@.map.valid(#[trigger] tiles@[k]),
    {
        assert(border@.take(i + 1).drop_last() =~= border@.take(i as int));
        let mut neighbors = game.map.neighbors4(border[i]);
        tiles.append(&mut neighbors);
    }
    proof {
        crate::lists::lemma_take_all(border@);
    }
    tiles
}

fn push_across(game: &Game, t: TileRef, dx: i32, dy: i32, tiles: &mut Vec<TileRef>)
    requires
        game@.wf(),
        game@.map.valid(t),
        -1 <= dx <= 1,
        -1 <= dy <= 1,
        forall|k: int| 0 <= k < old(tiles)@.len() ==> game@.map.valid(#[trigger] old(tiles)@[k]),
    ensures
        final(tiles)@ == old(tiles)@ + game@.map.across(t, dx as int, dy as int),
        forall|k: int| 0 <= k < final(tiles)@.len() ==> game@.map.valid(#[trigger] final(tiles)@[k]),
{
    let bx: i32 = game.map.x(t) as i32;
    let by: i32 = game.map.y(t) as i32;
    let (x, y) = (bx + dx, by + dy);
    let (nx, ny) = (bx + dx * SHORE_REACH, by + dy * SHORE_REACH);
    if game.map.is_valid_coord(x, y) {
        let first = game.map.ref_xy(x as u32, y as u32);
        if game.map.is_water(first) && game.map.is_valid_coord(nx, ny) {
            tiles.push(game.map.ref_xy(nx as u32, ny as u32));
        }
    }
    assert(tiles@ =~= old(tiles)@ + game@.map.across(t, dx as int, dy as int));
}

/// The tiles that a player sees over the water.
pub(crate) fn overseas_tiles(game: &Game, sid: u16) -> (tiles: Vec<TileRef>)
    requires
        game@.wf(),
    ensures
        tiles@ == game@.overseas(sid),
        forall|i: int| 0 <= i < tiles@.len() ==> game@.map.valid(#[trigger] tiles@[i]),
{
    let shores = game.shore_border_tiles(sid);
    let mut tiles: Vec<TileRef> = Vec::new();
    for i in 0..shores.len()
        invariant
            game@.wf(),
            forall|k: int| 0 <= k < shores@.len() ==> game@.map.valid(#[trigger] shores@[k]),
            tiles@ == across_sampled(game@.map, shores@, i as int),
            forall|k: int| 0 <= k < tiles@.len() ==> game@.map.valid(#[trigger] tiles@[k]),
    {
        if i % SHORE_STEP == 0 {
            let ghost held = tiles@;
            push_across(game, shores[i], 0, -1, &mut tiles);
            push_across(game, shores[i], 0, 1, &mut tiles);
            push_across(game, shores[i], -1, 0, &mut tiles);
            push_across(game, shores[i], 1, 0, &mut tiles);
            assert(tiles@ =~= held + game@.map.across_all(shores@[i as int]));
        } else {
            assert(tiles@ =~= tiles@ + Seq::<TileRef>::empty());
        }
    }
    tiles
}

/// The owners of `tiles`.
fn tile_owners(game: &Game, tiles: &Vec<TileRef>) -> (owners: Vec<u16>)
    requires
        forall|i: int| 0 <= i < tiles@.len() ==> game@.map.valid(#[trigger] tiles@[i]),
    ensures
        owners@ == game@.owners_of(tiles@),
{
    let mut owners: Vec<u16> = Vec::new();
    for i in 0..tiles.len()
        invariant
            forall|k: int| 0 <= k < tiles@.len() ==> game@.map.valid(#[trigger] tiles@[k]),
            owners@ == game@.owners_of(tiles@.take(i as int)),
    {
        owners.push(game.map.owner_id(tiles[i]));
        assert(game@.owners_of(tiles@.take(i + 1)) =~= game@.owners_of(tiles@.take(i as int)).push(
            game@.map.owner(tiles@[i as int]),
        ));
    }
    proof {
        crate::lists::lemma_take_all(tiles@);
    }
    owners
}

/// Whether some of `tiles` is land that nobody owns and no nuke has hit.
fn any_free_land(game: &Game, tiles: &Vec<TileRef>) -> (any: bool)
    requires
        forall|i: int| 0 <= i < tiles@.len() ==> game@.map.valid(#[trigger] tiles@[i]),
    ensures
        any == crate::lists::some_where(tiles@, |t: TileRef| game@.map.free_land(t)),
{
    let free = |t: TileRef| -> (free: bool)
            requires
                game@.map.valid(t),
            ensures
                free == game@.map.free_land(t),
            {
                game.map.is_land(t) && !game.map.is_impassable(t) && game.map.owner_id(t) == 0
                    && !game.map.has_fallout(t)
            };
    crate::lists::any_by(tiles, free, Ghost(|t: TileRef| game@.map.free_land(t)))
}

/// Whether land next to the player's is free to take.
pub fn has_land_border_tn(game: &Game, small_id: u16) -> (free: bool)
    requires
        game@.wf(),
    ensures
        free == game@.borders_free_land(small_id),
{
    let tiles = adjacent_tiles(game, small_id);
    any_free_land(game, &tiles)
}

/// Whether land next to the player's has no owner, hit by a nuke or not.
pub(crate) fn has_land_border_with_terra_nullius(game: &Game, small_id: u16) -> (unowned: bool)
    requires
        game@.wf(),
    ensures
        unowned == game@.borders_unowned_land(small_id),
{
    let tiles = adjacent_tiles(game, small_id);
    let accepts = |t: TileRef| -> (unowned: bool)
            requires
                game@.map.valid(t),
            ensures
                unowned == (game@.map.open_land(t) && game@.map.owner(t) == 0),
            {
                game.map.is_land(t) && !game.map.is_impassable(t) && game.map.owner_id(t) == 0
            };
    crate::lists::any_by(&tiles, accepts, Ghost(|t: TileRef| game@.map.open_land(t) && game@.map.owner(t) == 0))
}

pub(crate) fn has_shore_reachable_tn(game: &Game, small_id: u16) -> (free: bool)
    requires
        game@.wf(),
    ensures
        free == game@.sees_free_land(small_id),
{
    let tiles = overseas_tiles(game, small_id);
    any_free_land(game, &tiles)
}

/// Whether there is land free to take, next to the player's or over the water.
pub fn has_non_nuked_tn(game: &Game, small_id: u16) -> (free: bool)
    requires
        game@.wf(),
    ensures
        free == (game@.borders_free_land(small_id) || game@.sees_free_land(small_id)),
{
    has_land_border_tn(game, small_id) || has_shore_reachable_tn(game, small_id)
}

pub fn is_bordering_nuked_territory(game: &Game, small_id: u16) -> (nuked: bool)
    requires
        game@.wf(),
    ensures
        nuked == game@.borders_nuked_land(small_id),
{
    if game.wire.is_unit_disabled(crate::unit_type::MISSILE_SILO) {
        return false;
    }
    let tiles = adjacent_tiles(game, small_id);
    let accepts = |t: TileRef| -> (nuked: bool)
            requires
                game@.map.valid(t),
            ensures
                nuked == (game@.map.is_land(t) && game@.map.owner(t) == 0 && game@.map.has_fallout(t)),
            {
                game.map.is_land(t) && game.map.owner_id(t) == 0 && game.map.has_fallout(t)
            };
    crate::lists::any_by(&tiles, accepts, Ghost(
            |t: TileRef|
                game@.map.is_land(t) && game@.map.owner(t) == 0 && game@.map.has_fallout(t),
        ))
}

/// The owners of the open land next to a player's.
fn land_border_owners(game: &Game, small_id: u16) -> (owners: Vec<u16>)
    requires
        game@.wf(),
    ensures
        owners@ == game@.land_owners(small_id),
{
    let tiles = adjacent_tiles(game, small_id);
    let accepts = |t: TileRef| -> (open: bool)
            requires
                game@.map.valid(t),
            ensures
                open == game@.map.open_land(t),
            { game.map.is_land(t) && !game.map.is_impassable(t) };
    let open = crate::lists::filter_by(&tiles, accepts, Ghost(|t: TileRef| game@.map.open_land(t)));
    assert forall|i: int| 0 <= i < open@.len() implies game@.map.valid(#[trigger] open@[i]) by {
        assert(tiles@.contains(open@[i]));
    }
    tile_owners(game, &open)
}

/// The owners of the land that a player sees over the water.
fn overseas_owners(game: &Game, small_id: u16) -> (owners: Vec<u16>)
    requires
        game@.wf(),
    ensures
        owners@ == game@.sea_owners(small_id),
{
    let tiles = overseas_tiles(game, small_id);
    let accepts = |t: TileRef| -> (open: bool)
            requires
                game@.map.valid(t),
            ensures
                open == (game@.map.open_land(t) && !game@.map.has_fallout(t)),
            { game.map.is_land(t) && !game.map.is_impassable(t) && !game.map.has_fallout(t) };
    let open = crate::lists::filter_by(&tiles, accepts, Ghost(|t: TileRef| game@.map.open_land(t) && !game@.map.has_fallout(t)));
    assert forall|i: int| 0 <= i < open@.len() implies game@.map.valid(#[trigger] open@[i]) by {
        assert(tiles@.contains(open@[i]));
    }
    tile_owners(game, &open)
}

/// `ids` without `sid` and without nobody.
fn other_players(ids: &Vec<u16>, sid: u16) -> (others: Vec<u16>)
    ensures
        others@ == ids@.filter(is_other(sid)),
{
    let accepts = |id: u16| -> (other: bool)
            ensures
                other == (id != sid && id != 0),
            { id != sid && id != 0 };
    crate::lists::filter_by(ids, accepts, Ghost(is_other(sid)))
}

/// The other players that own land next to a player's, by id.
pub fn nearby_land_player_small_ids(game: &Game, small_id: u16) -> (ids: Vec<u16>)
    requires
        game@.wf(),
    ensures
        ids@ == game@.near_land_ids(small_id),
{
    let owners = land_border_owners(game, small_id);
    let others = other_players(&owners, small_id);
    let ids = crate::lists::distinct_ids(&others);
    crate::lists::sort_ids(&ids)
}

/// The other players that own land next to a player's or over the water, by id.
pub fn nearby_player_small_ids(game: &Game, small_id: u16) -> (ids: Vec<u16>)
    requires
        game@.wf(),
    ensures
        ids@ == game@.near_ids(small_id),
{
    let mut owners = land_border_owners(game, small_id);
    let mut overseas = overseas_owners(game, small_id);
    owners.append(&mut overseas);
    let others = other_players(&owners, small_id);
    let ids = crate::lists::distinct_ids(&others);
    crate::lists::sort_ids(&ids)
}

/// Whoever owns land next to a player's or over the water, in the order in which the
/// player comes upon them.
pub fn nearby_players_in_order(game: &Game, small_id: u16) -> (ids: Vec<u16>)
    requires
        game@.wf(),
    ensures
        ids@ == game@.near_in_order(small_id),
{
    let tiles = adjacent_tiles(game, small_id);
    let accepts = |t: TileRef| -> (open: bool)
            requires
                game@.map.valid(t),
            ensures
                open == (game@.map.open_land(t) && !(game@.map.owner(t) == 0 && game@.map.has_fallout(
                    t,
                ))),
            {
                game.map.is_land(t) && !game.map.is_impassable(t) && !(game.map.owner_id(t) == 0
                    && game.map.has_fallout(t))
            };
    let open = crate::lists::filter_by(&tiles, accepts, Ghost(
            |t: TileRef|
                game@.map.open_land(t) && !(game@.map.owner(t) == 0 && game@.map.has_fallout(t)),
        ));
    assert forall|i: int| 0 <= i < open@.len() implies game@.map.valid(#[trigger] open@[i]) by {
        assert(tiles@.contains(open@[i]));
    }
    let mut owners = tile_owners(game, &open);
    let mut overseas = overseas_owners(game, small_id);
    owners.append(&mut overseas);
    let accepts = |id: u16| -> (other: bool)
            ensures
                other == (id != small_id),
            { id != small_id };
    let others = crate::lists::filter_by(&owners, accepts, Ghost(is_not(small_id)));
    crate::lists::distinct_ids(&others)
}

/// The other players at a player's border or over the water, weakest first.
pub fn collect_bordering_players_pub(game: &Game, small_id: u16) -> (ids: Vec<u16>)
    requires
        game@.wf(),
    ensures
        ids@ == game@.bordering(small_id),
{
    collect_bordering_players(game, small_id)
}

fn collect_bordering_players(game: &Game, small_id: u16) -> (ids: Vec<u16>)
    requires
        game@.wf(),
    ensures
        ids@ == game@.bordering(small_id),
{
    let mut owners = land_border_owners(game, small_id);
    let mut near = nearby_players_in_order(game, small_id);
    owners.append(&mut near);
    let others = other_players(&owners, small_id);
    let ids = crate::lists::distinct_ids(&others);
    let ghost key = game@.by_troops();
    let mut keyed: Vec<(i64, u16)> = Vec::new();
    for i in 0..ids.len()
        invariant
            game@.wf(),
            key == game@.by_troops(),
            keyed@ == ids@.take(i as int).map_values(key),
    {
        keyed.push((game.troops_of(ids[i]), ids[i]));
        assert(ids@.take(i + 1).map_values(key) =~= ids@.take(i as int).map_values(key).push(
            key(ids@[i as int]),
        ));
    }
    proof {
        crate::lists::lemma_take_all(ids@);
    }
    crate::lists::sorted_payloads(&keyed)
}

pub(crate) fn bordering_enemies_by_troops(game: &Game, small_id: u16) -> (ids: Vec<u16>)
    requires
        game@.wf(),
    ensures
        ids@ == game@.bordering_enemies(small_id),
{
    let ids = collect_bordering_players(game, small_id);
    let accepts = |id: u16| -> (enemy: bool)
            ensures
                enemy == (id != small_id && !game@.is_friendly(small_id, id)),
            { id != small_id && !game.is_friendly(small_id, id) };
    crate::lists::filter_by(&ids, accepts, Ghost(game@.enemy_of(small_id)))
}

pub(crate) fn bordering_friends_by_troops(game: &Game, small_id: u16) -> (ids: Vec<u16>)
    requires
        game@.wf(),
    ensures
        ids@ == game@.bordering_friends(small_id),
{
    let ids = collect_bordering_players(game, small_id);
    let accepts = |id: u16| -> (friend: bool)
            ensures
                friend == (id != small_id && game@.is_friendly(small_id, id)),
            { id != small_id && game.is_friendly(small_id, id) };
    crate::lists::filter_by(&ids, accepts, Ghost(game@.friend_of(small_id)))
}

/// The players near another are listed by their ids, each once. Neither nobody nor the player
/// itself is among them, and everyone is who owns land next to it.
pub proof fn law_near_players(game: GameView, sid: u16)
    ensures
        forall|i: int, j: int|
            0 <= i < j < game.near_ids(sid).len() ==> #[trigger] game.near_ids(sid)[i]
                < #[trigger] game.near_ids(sid)[j],
        !game.near_ids(sid).contains(0),
        !game.near_ids(sid).contains(sid),
        forall|id: u16|
            #[trigger] game.near_land_ids(sid).contains(id) ==> game.near_ids(sid).contains(id),
        forall|id: u16|
            #[trigger] game.near_ids(sid).contains(id) == ((game.land_owners(sid).contains(id)
                || game.sea_owners(sid).contains(id)) && id != sid && id != 0),
{
    let (land, sea) = (game.land_owners(sid), game.sea_owners(sid));
    let all = land + sea;
    lemma_by_id(all, sid);
    lemma_by_id(land, sid);
    assert forall|id: u16| #[trigger] all.contains(id) == (land.contains(id) || sea.contains(
        id,
    )) by {
        lemma_sum_contains(land, sea, id);
    }
    assert forall|id: u16| #[trigger] game.near_land_ids(sid).contains(id) implies game.near_ids(
        sid,
    ).contains(id) by {
        assert(all.contains(id) == (land.contains(id) || sea.contains(id)));
    }
}

proof fn lemma_sum_contains(a: Seq<u16>, b: Seq<u16>, id: u16)
    ensures
        (a + b).contains(id) == (a.contains(id) || b.contains(id)),
{
    let all = a + b;
    if a.contains(id) {
        let k = choose|k: int| 0 <= k < a.len() && a[k] == id;
        assert(all[k] == id);
    }
    if b.contains(id) {
        let k = choose|k: int| 0 <= k < b.len() && b[k] == id;
        assert(all[a.len() + k] == id);
    }
    if all.contains(id) {
        let k = choose|k: int| 0 <= k < all.len() && all[k] == id;
        if k < a.len() {
            assert(a[k] == id);
        } else {
            assert(b[k - a.len()] == id);
        }
    }
}

/// The others among owners, by id.
proof fn lemma_by_id(owners: Seq<u16>, sid: u16)
    ensures
        ({
            let ids = crate::lists::sorted_ids(crate::lists::distinct(owners.filter(is_other(sid))));
            &&& forall|i: int, j: int|
                0 <= i < j < ids.len() ==> #[trigger] ids[i] < #[trigger] ids[j]
            &&& ids.no_duplicates()
            &&& forall|id: u16|
                #[trigger] ids.contains(id) == (owners.contains(id) && id != sid && id != 0)
        }),
{
    let others = owners.filter(is_other(sid));
    let once = crate::lists::distinct(others);
    let key = |id: u16| (id as i64, id);
    crate::lists::lemma_filter_members(owners, is_other(sid));
    crate::lists::law_distinct(others);
    crate::lists::law_sorting_by(once, key);
    let ids = crate::lists::sorted_ids(once);
    assert forall|i: int, j: int| 0 <= i < j < ids.len() implies #[trigger] ids[i]
        < #[trigger] ids[j] by {
        assert(key(ids[i]).0 <= key(ids[j]).0);
    }
}

/// The players at a border are those near by, each once, and come with ascending troops;
/// those with as many troops come in the order in which the player comes upon them.
pub proof fn law_bordering_players(game: GameView, sid: u16)
    ensures
        game.bordering(sid).to_multiset() == game.near_ids(sid).to_multiset(),
        game.bordering(sid).len() == game.near_ids(sid).len(),
        game.bordering(sid).no_duplicates(),
        !game.bordering(sid).contains(0),
        !game.bordering(sid).contains(sid),
        forall|i: int, j: int|
            0 <= i <= j < game.bordering(sid).len() ==> game.by_troops()(
                #[trigger] game.bordering(sid)[i],
            ).0 <= game.by_troops()(#[trigger] game.bordering(sid)[j]).0,
        forall|troops: i64|
            game.bordering(sid).filter(#[trigger] crate::lists::has_key(game.by_troops(), troops))
                == game.first_seen(sid).filter(crate::lists::has_key(game.by_troops(), troops)),
{
    let seen = game.first_seen(sid);
    let (land, sea) = (game.land_owners(sid), game.sea_owners(sid));
    let owners = land + game.near_in_order(sid);
    let key = game.by_troops();
    crate::lists::lemma_filter_members(owners, is_other(sid));
    crate::lists::law_distinct(owners.filter(is_other(sid)));
    crate::lists::law_sorting_by(seen, key);
    law_near_players(game, sid);
    lemma_by_id(land + sea, sid);
    assert forall|id: u16| #[trigger] game.bordering(sid).contains(id) == game.near_ids(
        sid,
    ).contains(id) by {
        lemma_sum_contains(land, game.near_in_order(sid), id);
        lemma_in_order(game, sid, id);
        assert(game.bordering(sid).contains(id) == seen.contains(id));
        assert(game.near_ids(sid).contains(id) == ((land.contains(id) || sea.contains(id)) && id
            != sid && id != 0));
    }
    crate::lists::lemma_same_members(game.bordering(sid), game.near_ids(sid));
}

/// Whom a player comes upon owns land next to it or over the water.
proof fn lemma_in_order(game: GameView, sid: u16, id: u16)
    ensures
        game.near_in_order(sid).contains(id) ==> game.land_owners(sid).contains(id)
            || game.sea_owners(sid).contains(id),
        game.sea_owners(sid).contains(id) && id != sid ==> game.near_in_order(sid).contains(id),
{
    let p = |t: TileRef|
        game.map.open_land(t) && !(game.map.owner(t) == 0 && game.map.has_fallout(t));
    let q = |t: TileRef| game.map.open_land(t);
    let near = game.adjacent(sid);
    let some = game.owners_of(near.filter(p));
    let sea = game.sea_owners(sid);
    let all = some + sea;
    crate::lists::lemma_filter_members(all, is_not(sid));
    crate::lists::law_distinct(all.filter(is_not(sid)));
    lemma_sum_contains(some, sea, id);
    assert(game.near_in_order(sid).contains(id) == (all.contains(id) && id != sid));
    if some.contains(id) {
        let k = choose|k: int| 0 <= k < some.len() && some[k] == id;
        let t = near.filter(p)[k];
        crate::lists::lemma_filter_members(near, p);
        crate::lists::lemma_filter_members(near, q);
        assert(near.filter(p).contains(t));
        assert(near.filter(q).contains(t));
        let m = choose|m: int| 0 <= m < near.filter(q).len() && near.filter(q)[m] == t;
        assert(game.land_owners(sid)[m] == id);
    }
}

} // verus!
