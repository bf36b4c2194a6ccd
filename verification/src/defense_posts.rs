//! How a nation under attack builds defense posts behind its front.

use vstd::prelude::*;

use crate::config::{Difficulty, TROOP_SCALE};
use crate::construction::ConstructionExecution;
use crate::exec_enum::ExecEnum;
use crate::game::{Game, GameView};
use crate::game_war::AttackInfo;
use crate::ordered_tiles::TileRef;
use crate::orders::Order;
use crate::prng::PseudoRandom;
use crate::state::Unit;
use crate::unit_type::UnitType;

verus! {

/// The places that a nation considers for a defense post.
pub const FRONT_SAMPLES: usize = 25;

/// How often a nation looks for such places.
pub const FRONT_TRIES: usize = 150;

/// The attackers' share of a nation's troops, in percent, from which it builds.
pub const UNDER_ATTACK_PERCENT: i128 = 35;

/// Maps attacks to who leads them.
pub open spec fn attacker_of() -> spec_fn(AttackInfo) -> u16 {
    |a: AttackInfo| a.attacker_small_id
}

impl GameView {
    /// Tiles that somebody else's land borders on.
    pub open spec fn held_by(self, owners: Seq<u16>) -> spec_fn(TileRef) -> bool {
        |t: TileRef| self.map.owner(t) != 0 && owners.contains(self.map.owner(t))
    }

    pub open spec fn facing(self, attackers: Seq<u16>) -> spec_fn(TileRef) -> bool {
        |t: TileRef| crate::lists::some_where(self.map.neighbors4(t), self.held_by(attackers))
    }

    /// The border tiles of a player that face attackers.
    pub open spec fn front(self, sid: u16, attackers: Seq<u16>) -> Seq<TileRef> {
        self.border(sid).filter(self.facing(attackers))
    }

    /// The square of one and a half times the border spacing.
    pub open spec fn front_range2(self) -> int {
        9 * self.border_spacing() * self.border_spacing() / 4
    }

    pub open spec fn within_front(self, t: TileRef) -> spec_fn(TileRef) -> bool {
        |x: TileRef| self.map.dist2(t, x) <= self.front_range2()
    }

    /// Defense posts near a front.
    pub open spec fn near_front(self, front: Seq<TileRef>) -> spec_fn(Unit) -> bool {
        |u: Unit| crate::lists::some_where(front, self.within_front(u.tile))
    }

    pub open spec fn posts_near(self, sid: u16, front: Seq<TileRef>) -> nat {
        self.units_of(sid, UnitType::DefensePost).filter(self.near_front(front)).len()
    }

    pub open spec fn spread_from(self, t: TileRef) -> spec_fn(TileRef) -> bool {
        |post: TileRef| self.map.dist2(post, t) < self.front_range2()
    }

    /// Tiles far from every one of `posts`.
    pub open spec fn unfortified(self, posts: Seq<TileRef>) -> spec_fn(TileRef) -> bool {
        |t: TileRef| !crate::lists::some_where(posts, self.spread_from(t))
    }

    /// The tiles of a front around which a nation looks for places: those far from its
    /// defense posts, or all where there are none.
    pub open spec fn anchors(self, sid: u16, front: Seq<TileRef>) -> Seq<TileRef> {
        let apart = front.filter(
            self.unfortified(self.kind_tiles(sid, UnitType::DefensePost)),
        );
        if apart.len() == 0 {
            front
        } else {
            apart
        }
    }

    /// How far from an anchor a nation looks.
    pub open spec fn front_radius(self) -> int {
        (3 * self.border_spacing() + 1) / 2
    }

    /// How far behind the border a defense post should stand at least.
    pub open spec fn least_depth(self) -> int {
        (3 * self.border_spacing() + 3) / 4
    }

    /// Places where a structure on land can stand.
    pub open spec fn buildable(self, sid: u16) -> spec_fn(TileRef) -> bool {
        |t: TileRef| self.site(sid, UnitType::City, t) is Some
    }

    /// Whether a place serves for a defense post: own land, not too near the border and not
    /// too far behind it.
    pub open spec fn serves(self, sid: u16, x: int, y: int) -> bool {
        &&& self.map.valid_coord(x, y)
        &&& self.map.owner(self.map.at(x, y)) == sid
        &&& match crate::game_land::nearest(self.map, self.border(sid), self.map.at(x, y)) {
            Some(b) => {
                let d = self.map.manhattan(b, self.map.at(x, y));
                self.least_depth() <= d && d <= self.front_radius()
            },
            None => false,
        }
        &&& self.buildable(sid)(self.map.at(x, y))
    }

    /// Places found around `anchors` after `tries` more, and the random state after those.
    pub open spec fn searching(
        self,
        rng: u64,
        sid: u16,
        anchors: Seq<TileRef>,
        found: Seq<TileRef>,
        tries: nat,
    ) -> (Seq<TileRef>, u64)
        decreases tries,
    {
        if tries == 0 || found.len() >= FRONT_SAMPLES {
            (found, rng)
        } else {
            let (anchor, s1) = crate::prng::element_drawn(rng, anchors);
            let r = self.front_radius();
            let ax = self.map.x(anchor->0);
            let ay = self.map.y(anchor->0);
            let x = crate::prng::int_drawn(s1, ax - r, ax + r + 1);
            let s2 = crate::prng::next_state(s1);
            let y = crate::prng::int_drawn(s2, ay - r, ay + r + 1);
            let s3 = crate::prng::next_state(s2);
            self.searching(
                s3,
                sid,
                anchors,
                if self.serves(sid, x, y) {
                    found.push(self.map.at(x, y))
                } else {
                    found
                },
                (tries - 1) as nat,
            )
        }
    }

    /// The places that a nation considers for a defense post behind a front: some near it,
    /// or some anywhere in its land.
    pub open spec fn front_sites(self, rng: u64, sid: u16, front: Seq<TileRef>) -> (
        Seq<TileRef>,
        u64,
    ) {
        if front.len() == 0 {
            (Seq::empty(), rng)
        } else {
            let (found, after) = self.searching(
                rng,
                sid,
                self.anchors(sid, front),
                Seq::empty(),
                FRONT_TRIES as nat,
            );
            if found.len() == 0 {
                let (tiles, last) = self.random_tiles(after, sid, FRONT_SAMPLES as nat);
                (tiles.filter(self.buildable(sid)), last)
            } else {
                (found, after)
            }
        }
    }

    /// How many defense posts near the front a nation allows itself.
    pub open spec fn posts_allowed(self, incoming: int, troops: int) -> int {
        if self.config.difficulty == Difficulty::Medium {
            1
        } else {
            (5 * incoming + 2 * troops * TROOP_SCALE - 1) / (2 * troops * TROOP_SCALE)
        }
    }

    /// The game after a nation under attack may have ordered a defense post, whether it did,
    /// and the random state after that.
    pub open spec fn fortifying(self, rng: u64, sid: u16) -> (GameView, u64, bool) {
        let medium = self.config.difficulty == Difficulty::Medium;
        let state = if medium {
            crate::prng::next_state(rng)
        } else {
            rng
        };
        let attacks = self.incoming(sid, true);
        let incoming = crate::game_war::troop_sum(attacks);
        let troops = self.troops(sid);
        let front = self.front(sid, attacks.map_values(attacker_of()));
        if self.config.disabled(UnitType::DefensePost) || self.config.difficulty
            == Difficulty::Easy {
            (self, rng, false)
        } else if (medium && !crate::prng::chance_drawn(rng, 2)) || attacks.len() == 0 || troops
            <= 0 || incoming * 100 < troops * TROOP_SCALE * UNDER_ATTACK_PERCENT || self.posts_near(
            sid,
            front,
        ) >= self.posts_allowed(incoming, troops) || self.gold(sid) < self.cost(
            sid,
            UnitType::DefensePost,
        ) {
            (self, state, false)
        } else {
            let (sites, after) = self.front_sites(state, sid, front);
            match crate::lists::first_where(sites, self.buildable(sid)) {
                Some(tile) => (
                    self.ordering(
                        Order::Construction {
                            small_id: sid,
                            unit_type: UnitType::DefensePost,
                            tile,
                            rocket_direction_up: true,
                        },
                    ),
                    after,
                    true,
                ),
                None => (self, after, false),
            }
        }
    }
}

/// The border tiles of a player that face attackers.
pub fn get_attack_front_tiles(game: &Game, small_id: u16, attackers: &Vec<u16>) -> (front: Vec<
    TileRef,
>)
    requires
        game@.wf(),
    ensures
        front@ == game@.front(small_id, attackers@),
        forall|i: int| 0 <= i < front@.len() ==> game@.map.valid(#[trigger] front@[i]),
{
    let border = game.border_tiles_for(small_id);
    let accepts = |t: TileRef| -> (faces: bool)
        requires
            game@.map.valid(t),
        ensures
            faces == game@.facing(attackers@)(t),
        {
            let next = game.map.neighbors4(t);
            let held = |n: TileRef| -> (theirs: bool)
                requires
                    game@.map.valid(n),
                ensures
                    theirs == game@.held_by(attackers@)(n),
                {
                    let owner: u16 = game.map.owner_id(n);
                    owner != 0 && crate::lists::has_id(attackers, owner)
                };
            crate::lists::any_by(&next, held, Ghost(game@.held_by(attackers@)))
        };
    let front = crate::lists::filter_by(&border, accepts, Ghost(game@.facing(attackers@)));
    assert forall|i: int| 0 <= i < front@.len() implies game@.map.valid(#[trigger] front@[i]) by {
        assert(border@.contains(front@[i]));
    }
    front
}

/// The square of one and a half times the border spacing.
fn front_range_squared(game: &Game) -> (range: u64)
    requires
        game@.wf(),
    ensures
        range == game@.front_range2(),
{
    let b: u64 = game.wire.atom_bomb.outer as u64;
    assert(0 <= 9 * b <= 9000 && 0 <= (9 * b) * b <= 9_000_000) by (nonlinear_arith)
        requires
            0 <= b <= 1000,
    ;
    9 * b * b / 4
}

/// How many defense posts of a player stand near a front.
pub fn count_defense_posts_near_front(game: &Game, small_id: u16, front_tiles: &Vec<TileRef>) -> (
    count: usize)
    requires
        game@.wf(),
        forall|i: int| 0 <= i < front_tiles@.len() ==> game@.map.valid(#[trigger] front_tiles@[i]),
    ensures
        count == game@.posts_near(small_id, front_tiles@),
{
    let range: u64 = front_range_squared(game);
    let posts = game.units_of_type(small_id, UnitType::DefensePost);
    let accepts = |u: Unit| -> (near: bool)
        requires
            game@.map.valid(u.tile),
        ensures
            near == game@.near_front(front_tiles@)(u),
        {
            let within = |x: TileRef| -> (close: bool)
                requires
                    game@.map.valid(x),
                ensures
                    close == game@.within_front(u.tile)(x),
                { game.map.euclidean_dist_squared(u.tile, x) <= range };
            crate::lists::any_by(front_tiles, within, Ghost(game@.within_front(u.tile)))
        };
    crate::lists::filter_by(&posts, accepts, Ghost(game@.near_front(front_tiles@))).len()
}

/// A random coordinate at most `radius` from `center`, on either side.
pub fn sample_front_coordinate(random: &mut PseudoRandom, center: i32, radius: i32) -> (at: i32)
    requires
        0 <= center <= 1_000_000,
        0 <= radius <= 1_000_000,
    ensures
        at == crate::prng::int_drawn(
            old(random).state,
            center - radius,
            center + radius + 1,
        ),
        final(random).state == crate::prng::next_state(old(random).state),
        center - radius <= at <= center + radius,
{
    random.next_int(center - radius, center + radius + 1)
}

/// The tiles of a front around which a nation looks for places.
fn front_anchors(game: &Game, small_id: u16, front_tiles: &Vec<TileRef>) -> (anchors: Vec<TileRef>)
    requires
        game@.wf(),
        forall|i: int| 0 <= i < front_tiles@.len() ==> game@.map.valid(#[trigger] front_tiles@[i]),
    ensures
        anchors@ == game@.anchors(small_id, front_tiles@),
        forall|i: int| 0 <= i < anchors@.len() ==> game@.map.valid(#[trigger] anchors@[i]),
{
    let range: u64 = front_range_squared(game);
    let posts = crate::structure_value::tiles_of_kind(game, small_id, UnitType::DefensePost);
    let accepts = |t: TileRef| -> (apart: bool)
        requires
            game@.map.valid(t),
        ensures
            apart == game@.unfortified(posts@)(t),
        {
            let near = |post: TileRef| -> (close: bool)
                requires
                    game@.map.valid(post),
                ensures
                    close == game@.spread_from(t)(post),
                { game.map.euclidean_dist_squared(post, t) < range };
            !crate::lists::any_by(&posts, near, Ghost(game@.spread_from(t)))
        };
    let apart = crate::lists::filter_by(front_tiles, accepts, Ghost(game@.unfortified(posts@)));
    if apart.len() == 0 {
        let mut all: Vec<TileRef> = Vec::new();
        for i in 0..front_tiles.len()
            invariant
                all@ == front_tiles@.take(i as int),
        {
            all.push(front_tiles[i]);
            assert(front_tiles@.take(i + 1) =~= front_tiles@.take(i as int).push(
                front_tiles@[i as int],
            ));
        }
        assert(all@ =~= front_tiles@);
        all
    } else {
        assert forall|i: int| 0 <= i < apart@.len() implies game@.map.valid(#[trigger] apart@[i]) by {
            assert(front_tiles@.contains(apart@[i]));
        }
        apart
    }
}

fn is_buildable(game: &Game, small_id: u16, t: TileRef) -> (can: bool)
    requires
        game@.wf(),
        game@.map.valid(t),
    ensures
        can == game@.buildable(small_id)(t),
{
    crate::spawn_tiles::can_build_land_structure(game, small_id, t).is_some()
}

/// The place for a defense post at some coordinates, where they serve.
fn serving_tile(game: &Game, small_id: u16, x: i32, y: i32, border: &Vec<TileRef>) -> (tile: Option<
    TileRef,
>)
    requires
        game@.wf(),
        border@ == game@.border(small_id),
        forall|i: int| 0 <= i < border@.len() ==> game@.map.valid(#[trigger] border@[i]),
    ensures
        tile is Some == game@.serves(small_id, x as int, y as int),
        tile is Some ==> tile->0 == game@.map.at(x as int, y as int) && game@.map.valid(tile->0),
{
    if !game.map.is_valid_coord(x, y) {
        return None;
    }
    let t: TileRef = game.map.ref_xy(x as u32, y as u32);
    if game.map.owner_id(t) != small_id {
        return None;
    }
    let b: u32 = game.wire.atom_bomb.outer;
    let (found, depth): (Option<TileRef>, u32) = game.closest_tile(border, t);
    if found.is_none() || depth < (3 * b + 3) / 4 || depth > (3 * b + 1) / 2 {
        return None;
    }
    if !is_buildable(game, small_id, t) {
        return None;
    }
    Some(t)
}

/// Looks for places for a defense post around some tiles.
fn search_near(game: &Game, random: &mut PseudoRandom, small_id: u16, anchors: &Vec<TileRef>) -> (
    tiles: Vec<TileRef>)
    requires
        game@.wf(),
        anchors@.len() > 0,
        forall|i: int| 0 <= i < anchors@.len() ==> game@.map.valid(#[trigger] anchors@[i]),
    ensures
        (tiles@, final(random).state) == game@.searching(
            old(random).state,
            small_id,
            anchors@,
            Seq::empty(),
            FRONT_TRIES as nat,
        ),
        forall|i: int| 0 <= i < tiles@.len() ==> game@.map.valid(#[trigger] tiles@[i]),
{
    let border = game.border_tiles_for(small_id);
    let b: u32 = game.wire.atom_bomb.outer;
    let radius: i32 = ((3 * b + 1) / 2) as i32;
    let mut tiles: Vec<TileRef> = Vec::new();
    let ghost goal = game@.searching(
        random.state,
        small_id,
        anchors@,
        Seq::empty(),
        FRONT_TRIES as nat,
    );
    assert(tiles@ =~= Seq::empty());
    for i in 0..FRONT_TRIES
        invariant
            game@.wf(),
            anchors@.len() > 0,
            forall|k: int| 0 <= k < anchors@.len() ==> game@.map.valid(#[trigger] anchors@[k]),
            border@ == game@.border(small_id),
            forall|k: int| 0 <= k < border@.len() ==> game@.map.valid(#[trigger] border@[k]),
            radius == game@.front_radius(),
            radius <= 2000,
            forall|k: int| 0 <= k < tiles@.len() ==> game@.map.valid(#[trigger] tiles@[k]),
            game@.searching(random.state, small_id, anchors@, tiles@, (FRONT_TRIES - i) as nat)
                == goal,
    {
        if tiles.len() < FRONT_SAMPLES {
            match random.rand_element(anchors.as_slice()) {
                Some(anchor) => {
                    let ax: i32 = game.map.x(anchor) as i32;
                    let ay: i32 = game.map.y(anchor) as i32;
                    let x: i32 = sample_front_coordinate(random, ax, radius);
                    let y: i32 = sample_front_coordinate(random, ay, radius);
                    match serving_tile(game, small_id, x, y, &border) {
                        Some(t) => tiles.push(t),
                        None => {},
                    }
                },
                None => {},
            }
        }
    }
    tiles
}

/// The places that a nation considers for a defense post behind a front.
pub fn sample_tiles_near_front(
    game: &Game,
    random: &mut PseudoRandom,
    small_id: u16,
    front_tiles: &Vec<TileRef>,
) -> (tiles: Vec<TileRef>)
    requires
        game@.wf(),
        forall|i: int| 0 <= i < front_tiles@.len() ==> game@.map.valid(#[trigger] front_tiles@[i]),
    ensures
        (tiles@, final(random).state) == game@.front_sites(
            old(random).state,
            small_id,
            front_tiles@,
        ),
        forall|i: int| 0 <= i < tiles@.len() ==> game@.map.valid(#[trigger] tiles@[i]),
{
    if front_tiles.len() == 0 {
        return Vec::new();
    }
    let anchors = front_anchors(game, small_id, front_tiles);
    let found = search_near(game, random, small_id, &anchors);
    if found.len() > 0 {
        return found;
    }
    let anywhere = crate::territory::rand_territory_tile_array(
        game,
        random,
        small_id,
        FRONT_SAMPLES,
    );
    let accepts = |t: TileRef| -> (can: bool)
        requires
            game@.map.valid(t),
        ensures
            can == game@.buildable(small_id)(t),
        { is_buildable(game, small_id, t) };
    let tiles = crate::lists::filter_by(&anywhere, accepts, Ghost(game@.buildable(small_id)));
    assert forall|i: int| 0 <= i < tiles@.len() implies game@.map.valid(#[trigger] tiles@[i]) by {
        assert(anywhere@.contains(tiles@[i]));
    }
    tiles
}

fn attackers_in(attacks: &Vec<AttackInfo>) -> (attackers: Vec<u16>)
    ensures
        attackers@ == attacks@.map_values(attacker_of()),
{
    let ghost f = attacker_of();
    let mut attackers: Vec<u16> = Vec::new();
    for i in 0..attacks.len()
        invariant
            f == attacker_of(),
            attackers@ == attacks@.take(i as int).map_values(f),
    {
        attackers.push(attacks[i].attacker_small_id);
        assert(attacks@.take(i + 1).map_values(f) =~= attacks@.take(i as int).map_values(f).push(
            f(attacks@[i as int]),
        ));
    }
    proof {
        crate::lists::lemma_take_all(attacks@);
    }
    attackers
}

/// Lets a nation under heavy attack order a defense post behind its front.
pub fn try_build_defense_post(game: &mut Game, random: &mut PseudoRandom, small_id: u16) -> (ordered:
    bool)
    requires
        old(game).wf(),
    ensures
        final(game).wf(),
        (final(game)@, final(random).state, ordered) == old(game)@.fortifying(
            old(random).state,
            small_id,
        ),
{
    let difficulty: Difficulty = game.wire.difficulty;
    if game.wire.is_unit_disabled(UnitType::DefensePost) || difficulty == Difficulty::Easy {
        return false;
    }
    if difficulty == Difficulty::Medium && !random.chance(2) {
        return false;
    }
    let attacks = game.incoming_attacks(small_id, true);
    let troops: i64 = game.troops_of(small_id);
    if attacks.len() == 0 || troops <= 0 {
        return false;
    }
    assert(attacks.len() <= 0xffff_ffff_ffff_ffff);
    let incoming: i128 = crate::game_war::total_troops(&attacks);
    assert(-(90_000_000_000_000_000 * 0xffff_ffff_ffff_ffff) <= incoming
        <= 90_000_000_000_000_000 * 0xffff_ffff_ffff_ffff);
    if incoming * 100 < troops as i128 * TROOP_SCALE as i128 * UNDER_ATTACK_PERCENT {
        return false;
    }
    let attackers = attackers_in(&attacks);
    let front = get_attack_front_tiles(game, small_id, &attackers);
    let full: i128 = 2 * troops as i128 * TROOP_SCALE as i128;
    let allowed: i128 = if difficulty == Difficulty::Medium {
        1
    } else {
        (5 * incoming + full - 1) / full
    };
    if count_defense_posts_near_front(game, small_id, &front) as i128 >= allowed {
        return false;
    }
    if game.gold_of(small_id) < game.structure_cost(small_id, UnitType::DefensePost) {
        return false;
    }
    let tiles = sample_tiles_near_front(game, random, small_id, &front);
    let game_now: &Game = game;
    let accepts = |t: TileRef| -> (can: bool)
        requires
            game_now@.map.valid(t),
        ensures
            can == game_now@.buildable(small_id)(t),
        { is_buildable(game_now, small_id, t) };
    let found: Option<TileRef> = crate::lists::find_by(
        &tiles,
        accepts,
        Ghost(game_now@.buildable(small_id)),
    );
    match found {
        Some(tile) => {
            game.add_execution(
                ExecEnum::Construction(
                    ConstructionExecution::new(small_id, UnitType::DefensePost, tile, true),
                ),
            );
            true
        },
        None => false,
    }
}

} // verus!
