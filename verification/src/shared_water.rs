//! The bodies of water on which players can trade.

use vstd::prelude::*;

use crate::game::{Game, GameView};
use crate::map::MapView;
use crate::ordered_tiles::TileRef;
use crate::prng::PseudoRandom;
use crate::state::{PlayerType, SharedWater, SharedWaterView};

verus! {

/// What is known of the water is worked out anew after this many ticks.
pub const SHARED_WATER_CACHE_TTL_TICKS: u32 = 30;

/// The number that stands for the ocean.
pub const OCEAN: u32 = 0xffff_ffff;

impl MapView {
    /// Tiles of the ocean.
    pub open spec fn ocean_water(self) -> spec_fn(TileRef) -> bool {
        |t: TileRef| self.is_water(t) && self.is_ocean(t)
    }

    /// Tiles of a lake.
    pub open spec fn lake_water(self) -> spec_fn(TileRef) -> bool {
        |t: TileRef| self.is_water(t) && !self.is_ocean(t) && self.tiles[t as int].component is Some
    }

    /// The body of water of a tile.
    pub open spec fn body(self) -> spec_fn(TileRef) -> u32 {
        |t: TileRef| self.tiles[t as int].component->0
    }

    /// Water by which one of the bodies `shared` is reached.
    pub open spec fn trade_water(self, shared: Seq<u32>) -> spec_fn(TileRef) -> bool {
        |t: TileRef|
            self.is_water(t) && ((self.is_ocean(t) && shared.contains(OCEAN)) || (
            self.tiles[t as int].component is Some && shared.contains(
                self.tiles[t as int].component->0,
            )))
    }

    /// Shores next to one of the bodies `shared`.
    pub open spec fn trade_shore(self, shared: Seq<u32>) -> spec_fn(TileRef) -> bool {
        |t: TileRef|
            self.is_shore(t) && crate::lists::some_where(
                self.neighbors4(t),
                self.trade_water(shared),
            )
    }
}

impl GameView {
    /// The tiles next to a player's shores.
    pub open spec fn offshore(self, sid: u16) -> Seq<TileRef> {
        crate::ai_attack::flatten_neighbors(self.map, self.shores(sid))
    }

    /// The lakes that a player lies on.
    pub open spec fn lakes(self, sid: u16) -> Seq<u32> {
        crate::lists::distinct(
            self.offshore(sid).filter(self.map.lake_water()).map_values(self.map.body()),
        )
    }

    /// Players who count on the water: those alive that are no bots.
    pub open spec fn trader(self) -> spec_fn(u16) -> bool {
        |id: u16| !self.of_type(id, PlayerType::Bot)
    }

    pub open spec fn traders(self) -> Seq<u16> {
        self.alive_ids().filter(self.trader())
    }

    /// Others on a lake with whom `sid` can trade.
    pub open spec fn lake_partner(self, sid: u16, lake: u32) -> spec_fn(u16) -> bool {
        |id: u16| id != sid && self.lakes(id).contains(lake) && self.can_trade(sid, id)
    }

    /// Lakes on which `sid` can trade with somebody.
    pub open spec fn shared_lake(self, sid: u16) -> spec_fn(u32) -> bool {
        |lake: u32| crate::lists::some_where(self.traders(), self.lake_partner(sid, lake))
    }

    /// The bodies of water on which a player can trade: the ocean and lakes that it shares.
    pub open spec fn trade_bodies(self, sid: u16) -> Seq<u32> {
        (if crate::lists::some_where(self.offshore(sid), self.map.ocean_water()) {
            seq![OCEAN]
        } else {
            Seq::empty()
        }) + self.lakes(sid).filter(self.shared_lake(sid))
    }

    pub open spec fn trade_entry(self) -> spec_fn(u16) -> SharedWaterView {
        |id: u16| SharedWaterView { small_id: id, components: self.trade_bodies(id) }
    }

    /// Whether what is known of the water is to be worked out anew.
    pub open spec fn water_is_stale(self) -> bool {
        match self.water_tick {
            Some(t) => self.tick - t >= SHARED_WATER_CACHE_TTL_TICKS,
            None => true,
        }
    }

    /// The game once what is known of the water is fresh enough.
    pub open spec fn charting(self) -> GameView {
        if self.water_is_stale() {
            GameView {
                water_tick: Some(self.tick),
                water: self.traders().map_values(self.trade_entry()),
                ..self
            }
        } else {
            self
        }
    }

    pub open spec fn water_entry(sid: u16) -> spec_fn(SharedWaterView) -> bool {
        |w: SharedWaterView| w.small_id == sid
    }

    /// What is known of the bodies of water on which a player can trade; none where it
    /// cannot.
    pub open spec fn known_bodies(self, sid: u16) -> Seq<u32> {
        match crate::lists::first_where(self.water, GameView::water_entry(sid)) {
            Some(w) => w.components,
            None => Seq::empty(),
        }
    }

    /// The shores of a player from which it can trade.
    pub open spec fn trade_shores(self, sid: u16) -> Seq<TileRef> {
        if self.known_bodies(sid).len() == 0 {
            Seq::empty()
        } else {
            self.border(sid).filter(self.map.trade_shore(self.known_bodies(sid)))
        }
    }

    /// At most `n` random shores from which a player can trade, and the random state after
    /// they were chosen.
    pub open spec fn random_shores(self, rng: u64, sid: u16, n: int) -> (Seq<TileRef>, u64) {
        let shores = self.trade_shores(sid);
        if shores.len() <= n {
            (shores, rng)
        } else {
            drawn_out(rng, shores, n)
        }
    }
}

/// `n` members of `s` drawn one after the other, and the random state after that.
pub open spec fn drawn_out(rng: u64, s: Seq<TileRef>, n: int) -> (Seq<TileRef>, u64)
    decreases n,
{
    if n <= 0 {
        (Seq::empty(), rng)
    } else {
        let k = crate::prng::int_drawn(rng, 0, s.len() as int);
        let (rest, after) = drawn_out(crate::prng::next_state(rng), s.remove(k), n - 1);
        (seq![s[k]] + rest, after)
    }
}

/// The tiles next to a player's shores.
fn offshore_tiles(game: &Game, sid: u16) -> (tiles: Vec<TileRef>)
    requires
        game@.wf(),
    ensures
        tiles@ == game@.offshore(sid),
        forall|i: int| 0 <= i < tiles@.len() ==> game@.map.valid(#[trigger] tiles@[i]),
{
    let shores = game.shore_border_tiles(sid);
    let mut tiles: Vec<TileRef> = Vec::new();
    assert(shores@.take(0) =~= Seq::<TileRef>::empty());
    for i in 0..shores.len()
        invariant
            game@.wf(),
            forall|k: int| 0 <= k < shores@.len() ==> game@.map.valid(#[trigger] shores@[k]),
            tiles@ == crate::ai_attack::flatten_neighbors(game@.map, shores@.take(i as int)),
            forall|k: int| 0 <= k < tiles@.len() ==> game@.map.valid(#[trigger] tiles@[k]),
    {
        assert(shores@.take(i + 1).drop_last() =~= shores@.take(i as int));
        assert(game@.map.valid(shores@[i as int]));
        let mut next = game.map.neighbors4(shores[i]);
        tiles.append(&mut next);
    }
    assert(shores@.take(shores@.len() as int) =~= shores@);
    tiles
}

fn has_body(bodies: &Vec<u32>, body: u32) -> (has: bool)
    ensures
        has == bodies@.contains(body),
{
    crate::spawn_tiles::has_tile(bodies, body)
}

/// The lakes among tiles.
fn lakes_among(game: &Game, tiles: &Vec<TileRef>) -> (lakes: Vec<u32>)
    requires
        forall|i: int| 0 <= i < tiles@.len() ==> game@.map.valid(#[trigger] tiles@[i]),
    ensures
        lakes@ == crate::lists::distinct(
            tiles@.filter(game@.map.lake_water()).map_values(game@.map.body()),
        ),
{
    let ghost p = game@.map.lake_water();
    let ghost f = game@.map.body();
    let mut lakes: Vec<u32> = Vec::new();
    assert(tiles@.take(0).filter(p).map_values(f) =~= Seq::empty()) by {
        reveal(Seq::filter);
    }
    for i in 0..tiles.len()
        invariant
            p == game@.map.lake_water(),
            f == game@.map.body(),
            forall|k: int| 0 <= k < tiles@.len() ==> game@.map.valid(#[trigger] tiles@[k]),
            lakes@ == crate::lists::distinct(tiles@.take(i as int).filter(p).map_values(f)),
    {
        let t: TileRef = tiles[i];
        assert(game@.map.valid(tiles@[i as int]));
        let ghost held = tiles@.take(i as int).filter(p);
        proof {
            crate::lists::lemma_filter_step(tiles@, p, i as int);
        }
        if game.map.is_water(t) && !game.map.is_ocean(t) {
            match game.map.tiles[t as usize].component {
                Some(c) => {
                    assert(held.push(t).map_values(f) =~= held.map_values(f).push(c));
                    assert(held.map_values(f).push(c).drop_last() =~= held.map_values(f));
                    if !has_body(&lakes, c) {
                        lakes.push(c);
                    }
                },
                None => {},
            }
        }
    }
    proof {
        crate::lists::lemma_take_all(tiles@);
    }
    lakes
}

fn lakes_of(game: &Game, sid: u16) -> (lakes: Vec<u32>)
    requires
        game@.wf(),
    ensures
        lakes@ == game@.lakes(sid),
{
    let tiles = offshore_tiles(game, sid);
    lakes_among(game, &tiles)
}

/// The players who count on the water.
fn trading_players(game: &Game) -> (ids: Vec<u16>)
    requires
        game@.wf(),
    ensures
        ids@ == game@.traders(),
{
    let alive = game.players_alive();
    let accepts = |id: u16| -> (trades: bool)
        ensures
            trades == game@.trader()(id),
        { !game.is_of_type(id, PlayerType::Bot) };
    crate::lists::filter_by(&alive, accepts, Ghost(game@.trader()))
}

/// The bodies of water on which a player can trade.
fn trade_bodies_of(game: &Game, sid: u16, traders: &Vec<u16>) -> (bodies: Vec<u32>)
    requires
        game@.wf(),
        traders@ == game@.traders(),
    ensures
        bodies@ == game@.trade_bodies(sid),
{
    let tiles = offshore_tiles(game, sid);
    let ocean = |t: TileRef| -> (salty: bool)
        requires
            game@.map.valid(t),
        ensures
            salty == game@.map.ocean_water()(t),
        { game.map.is_water(t) && game.map.is_ocean(t) };
    let on_ocean = crate::lists::any_by(&tiles, ocean, Ghost(game@.map.ocean_water()));
    let lakes = lakes_among(game, &tiles);
    let shared = |lake: u32| -> (can: bool)
        ensures
            can == game@.shared_lake(sid)(lake),
        { is_lake_shared(game, sid, lake, traders) };
    let mut kept = crate::lists::filter_by(&lakes, shared, Ghost(game@.shared_lake(sid)));
    let mut bodies: Vec<u32> = Vec::new();
    if on_ocean {
        bodies.push(OCEAN);
    }
    let ghost first = bodies@;
    assert(first =~= (if on_ocean {
        seq![OCEAN]
    } else {
        Seq::empty()
    }));
    bodies.append(&mut kept);
    bodies
}

fn is_lake_shared(game: &Game, sid: u16, lake: u32, traders: &Vec<u16>) -> (shared: bool)
    requires
        game@.wf(),
        traders@ == game@.traders(),
    ensures
        shared == game@.shared_lake(sid)(lake),
{
    let partner = |id: u16| -> (trades: bool)
        ensures
            trades == game@.lake_partner(sid, lake)(id),
        {
            if id == sid || !game.can_trade(sid, id) {
                false
            } else {
                let lakes = lakes_of(game, id);
                has_body(&lakes, lake)
            }
        };
    crate::lists::any_by(traders, partner, Ghost(game@.lake_partner(sid, lake)))
}

impl Game {
    /// Works out anew which water players share, once what is known of it is too old.
    pub fn refresh_shared_water(&mut self)
        requires
            old(self).wf(),
        ensures
            final(self).wf(),
            final(self)@ == old(self)@.charting(),
    {
        let stale: bool = match self.water_tick {
            Some(t) => self.tick as i64 - t as i64 >= SHARED_WATER_CACHE_TTL_TICKS as i64,
            None => true,
        };
        if !stale {
            return;
        }
        let traders = trading_players(self);
        let ghost f = self@.trade_entry();
        let mut water: Vec<SharedWater> = Vec::new();
        for i in 0..traders.len()
            invariant
                self.wf(),
                traders@ == self@.traders(),
                f == self@.trade_entry(),
                crate::game::water_views(water@) == traders@.take(i as int).map_values(f),
        {
            let components = trade_bodies_of(self, traders[i], &traders);
            let entry = SharedWater { small_id: traders[i], components };
            let ghost before = water@;
            water.push(entry);
            assert(crate::game::water_views(water@) =~= crate::game::water_views(before).push(
                entry@,
            ));
            assert(traders@.take(i + 1).map_values(f) =~= traders@.take(i as int).map_values(
                f,
            ).push(f(traders@[i as int])));
        }
        proof {
            crate::lists::lemma_take_all(traders@);
        }
        self.water_tick = Some(self.tick);
        self.water = water;
    }

    /// What is known of the bodies of water on which a player can trade.
    pub fn known_shared_water(&self, sid: u16) -> (bodies: Vec<u32>)
        ensures
            bodies@ == self@.known_bodies(sid),
    {
        let ghost p = GameView::water_entry(sid);
        proof {
            crate::lists::lemma_take_all(self@.water);
        }
        for i in 0..self.water.len()
            invariant
                p == GameView::water_entry(sid),
                self@.water.len() == self.water@.len(),
                crate::lists::first_where(self@.water, p) == crate::lists::first_where(
                    self@.water.skip(i as int),
                    p,
                ),
        {
            assert(self@.water[i as int] == self.water@[i as int]@);
            if self.water[i].small_id == sid {
                proof {
                    crate::lists::lemma_first_where_found(self@.water, p, i as int);
                }
                return copy_bodies(&self.water[i].components);
            }
            proof {
                crate::lists::lemma_first_where_step(self@.water, p, i as int);
            }
        }
        Vec::new()
    }
}

fn copy_bodies(bodies: &Vec<u32>) -> (copy: Vec<u32>)
    ensures
        copy@ == bodies@,
{
    let mut copy: Vec<u32> = Vec::new();
    for i in 0..bodies.len()
        invariant
            copy@ == bodies@.take(i as int),
    {
        copy.push(bodies[i]);
        assert(bodies@.take(i + 1) =~= bodies@.take(i as int).push(bodies@[i as int]));
    }
    assert(copy@ =~= bodies@);
    copy
}

/// The bodies of water on which a player can trade, `None` where it cannot.
pub fn shared_water_components(game: &mut Game, small_id: u16) -> (bodies: Option<Vec<u32>>)
    requires
        old(game).wf(),
    ensures
        final(game).wf(),
        final(game)@ == old(game)@.charting(),
        bodies is Some == (final(game)@.known_bodies(small_id).len() > 0),
        bodies is Some ==> bodies->0@ == final(game)@.known_bodies(small_id),
{
    game.refresh_shared_water();
    let bodies = game.known_shared_water(small_id);
    if bodies.len() == 0 {
        None
    } else {
        Some(bodies)
    }
}

/// Whether a player has shores from which it can trade.
pub fn has_coastal_tiles(game: &mut Game, small_id: u16) -> (coastal: bool)
    requires
        old(game).wf(),
    ensures
        final(game).wf(),
        final(game)@ == old(game)@.charting(),
        coastal == (final(game)@.known_bodies(small_id).len() > 0),
{
    shared_water_components(game, small_id).is_some()
}

/// The shores of a player from which it can trade.
fn trade_shores_of(game: &Game, small_id: u16) -> (shores: Vec<TileRef>)
    requires
        game@.wf(),
    ensures
        shores@ == game@.trade_shores(small_id),
        forall|i: int| 0 <= i < shores@.len() ==> game@.map.valid(#[trigger] shores@[i]),
{
    let bodies = game.known_shared_water(small_id);
    if bodies.len() == 0 {
        return Vec::new();
    }
    let border = game.border_tiles_for(small_id);
    let accepts = |t: TileRef| -> (trades: bool)
        requires
            game@.map.valid(t),
        ensures
            trades == game@.map.trade_shore(bodies@)(t),
        {
            if !game.map.is_shore(t) {
                false
            } else {
                let next = game.map.neighbors4(t);
                let water = |n: TileRef| -> (reaches: bool)
                    requires
                        game@.map.valid(n),
                    ensures
                        reaches == game@.map.trade_water(bodies@)(n),
                    { does_reach(game, n, &bodies) };
                crate::lists::any_by(&next, water, Ghost(game@.map.trade_water(bodies@)))
            }
        };
    let shores = crate::lists::filter_by(
        &border,
        accepts,
        Ghost(game@.map.trade_shore(bodies@)),
    );
    assert forall|i: int| 0 <= i < shores@.len() implies game@.map.valid(#[trigger] shores@[i]) by {
        assert(border@.contains(shores@[i]));
    }
    shores
}

fn does_reach(game: &Game, t: TileRef, bodies: &Vec<u32>) -> (reaches: bool)
    requires
        game@.map.valid(t),
    ensures
        reaches == game@.map.trade_water(bodies@)(t),
{
    if !game.map.is_water(t) {
        return false;
    }
    if game.map.is_ocean(t) && has_body(bodies, OCEAN) {
        return true;
    }
    match game.map.tiles[t as usize].component {
        Some(c) => has_body(bodies, c),
        None => false,
    }
}

/// At most `n` random shores from which a player can trade.
pub fn rand_coastal_tile_array(
    game: &mut Game,
    random: &mut PseudoRandom,
    small_id: u16,
    n: usize,
) -> (tiles: Vec<TileRef>)
    requires
        old(game).wf(),
    ensures
        final(game).wf(),
        final(game)@ == old(game)@.charting(),
        (tiles@, final(random).state) == final(game)@.random_shores(
            old(random).state,
            small_id,
            n as int,
        ),
        forall|i: int| 0 <= i < tiles@.len() ==> final(game)@.map.valid(#[trigger] tiles@[i]),
{
    game.refresh_shared_water();
    sampled_shores(game, random, small_id, n)
}

/// At most `n` random shores from which a player can trade, as far as is known.
fn sampled_shores(game: &Game, random: &mut PseudoRandom, small_id: u16, n: usize) -> (tiles: Vec<
    TileRef,
>)
    requires
        game@.wf(),
    ensures
        (tiles@, final(random).state) == game@.random_shores(old(random).state, small_id, n as int),
        forall|i: int| 0 <= i < tiles@.len() ==> game@.map.valid(#[trigger] tiles@[i]),
{
    let mut remaining = trade_shores_of(game, small_id);
    if remaining.len() <= n {
        return remaining;
    }
    let mut out: Vec<TileRef> = Vec::new();
    let ghost goal = drawn_out(random.state, remaining@, n as int);
    let ghost total = remaining@.len();
    assert(out@ + goal.0 =~= goal.0);
    for i in 0..n
        invariant
            n < total,
            remaining@.len() == total - i,
            forall|k: int| 0 <= k < remaining@.len() ==> game@.map.valid(#[trigger] remaining@[k]),
            forall|k: int| 0 <= k < out@.len() ==> game@.map.valid(#[trigger] out@[k]),
            out@ + drawn_out(random.state, remaining@, n - i).0 == goal.0,
            drawn_out(random.state, remaining@, n - i).1 == goal.1,
    {
        let ghost before = out@;
        let ghost rest = remaining@;
        let ghost state = random.state;
        let k: usize = random.next_index(remaining.len());
        let t: TileRef = remaining.remove(k);
        out.push(t);
        assert(remaining@ =~= rest.remove(k as int));
        proof {
            let (left, after) = drawn_out(random.state, remaining@, n - i - 1);
            assert(before + (seq![t] + left) =~= before.push(t) + left);
            assert forall|j: int| 0 <= j < remaining@.len() implies game@.map.valid(
                #[trigger] remaining@[j],
            ) by {
                assert(remaining@[j] == rest[if j < k { j } else { j + 1 }]);
            }
        }
    }
    assert(out@ + drawn_out(random.state, remaining@, 0).0 =~= out@);
    out
}

impl GameView {
    /// Whether `water` lies next to the tile `shore` on a shore of `sid`.
    pub open spec fn is_off(self, sid: u16, shore: TileRef, water: TileRef) -> bool {
        self.border(sid).contains(shore) && self.map.is_shore(shore) && self.map.neighbors4(
            shore,
        ).contains(water)
    }

    /// Whether a shore of `sid` touches the ocean.
    pub open spec fn on_ocean(self, sid: u16) -> bool {
        exists|shore: TileRef, water: TileRef| #[trigger]
            self.is_off(sid, shore, water) && self.map.is_water(water) && self.map.is_ocean(water)
    }

    /// Whether a shore of `sid` touches the lake with a number.
    pub open spec fn on_lake(self, sid: u16, lake: u32) -> bool {
        exists|shore: TileRef, water: TileRef| #[trigger]
            self.is_off(sid, shore, water) && self.map.is_water(water) && !self.map.is_ocean(water)
                && self.map.tiles[water as int].component == Some(lake)
    }

    /// Whether another living player that is no bot lies on a lake too and `sid` can trade
    /// with it.
    pub open spec fn has_partner(self, sid: u16, lake: u32) -> bool {
        exists|id: u16| #[trigger]
            self.traders().contains(id) && id != sid && self.on_lake(id, lake) && self.can_trade(
                sid,
                id,
            )
    }

    /// Tiles off a player's shores.
    proof fn lemma_offshore(self, sid: u16, water: TileRef)
        ensures
            self.offshore(sid).contains(water) == (exists|shore: TileRef| #[trigger]
                self.is_off(sid, shore, water)),
    {
        let shores = self.shores(sid);
        let p = |t: TileRef| self.map.is_shore(t);
        crate::lists::lemma_filter_members(self.border(sid), p);
        lemma_flattened(self.map, shores, water);
        if self.offshore(sid).contains(water) {
            let shore = choose|shore: TileRef| #[trigger]
                shores.contains(shore) && self.map.neighbors4(shore).contains(water);
            assert(self.is_off(sid, shore, water));
        }
        if exists|shore: TileRef| #[trigger] self.is_off(sid, shore, water) {
            let shore = choose|shore: TileRef| #[trigger] self.is_off(sid, shore, water);
            assert(shores.contains(shore));
        }
    }

    proof fn lemma_lakes(self, sid: u16, lake: u32)
        ensures
            self.lakes(sid).contains(lake) == self.on_lake(sid, lake),
    {
        let all = self.offshore(sid);
        let wet = all.filter(self.map.lake_water());
        let bodies = wet.map_values(self.map.body());
        crate::lists::law_distinct(bodies);
        crate::lists::lemma_filter_members(all, self.map.lake_water());
        if bodies.contains(lake) {
            let i = choose|i: int| 0 <= i < bodies.len() && bodies[i] == lake;
            assert(wet.contains(wet[i]));
            self.lemma_offshore(sid, wet[i]);
            let shore = choose|shore: TileRef| #[trigger] self.is_off(sid, shore, wet[i]);
            assert(self.is_off(sid, shore, wet[i]));
        }
        if self.on_lake(sid, lake) {
            let (shore, water) = choose|shore: TileRef, water: TileRef| #[trigger]
                self.is_off(sid, shore, water) && self.map.is_water(water) && !self.map.is_ocean(
                    water,
                ) && self.map.tiles[water as int].component == Some(lake);
            self.lemma_offshore(sid, water);
            assert(wet.contains(water));
            let i = choose|i: int| 0 <= i < wet.len() && wet[i] == water;
            assert(bodies[i] == lake);
        }
    }

    /// Once what is known of the water is worked out anew, a living player that is no bot is
    /// known to trade on the ocean exactly where a shore of it touches the ocean, and on a
    /// lake exactly where a shore of it and one of somebody else with whom it can trade
    /// touch the lake. Nothing is known of anyone else.
    pub proof fn law_shared_water(self, sid: u16, body: u32)
        requires
            self.water_is_stale(),
        ensures
            self.charting().known_bodies(sid).contains(body) == (self.alive_ids().contains(sid)
                && !self.of_type(sid, PlayerType::Bot) && (body == OCEAN && self.on_ocean(sid)
                || self.on_lake(sid, body) && self.has_partner(sid, body))),
    {
        let traders = self.traders();
        let water = traders.map_values(self.trade_entry());
        let is_entry = GameView::water_entry(sid);
        crate::lists::lemma_filter_members(self.alive_ids(), self.trader());
        crate::lists::lemma_first_where(water, is_entry);
        if traders.contains(sid) {
            let i = choose|i: int| 0 <= i < traders.len() && traders[i] == sid;
            assert(is_entry(water[i]));
            let w = crate::lists::first_where(water, is_entry)->0;
            let k = choose|k: int| 0 <= k < water.len() && water[k] == w;
            assert(self.trade_entry()(traders[k]) == w);
            assert(self.charting().known_bodies(sid) == self.trade_bodies(sid));
            self.lemma_trade_bodies(sid, body);
        } else if let Some(w) = crate::lists::first_where(water, is_entry) {
            let k = choose|k: int| 0 <= k < water.len() && water[k] == w;
            assert(traders.contains(traders[k]));
        }
    }

    proof fn lemma_trade_bodies(self, sid: u16, body: u32)
        ensures
            self.trade_bodies(sid).contains(body) == (body == OCEAN && self.on_ocean(sid)
                || self.on_lake(sid, body) && self.has_partner(sid, body)),
    {
        let all = self.offshore(sid);
        let p = self.map.ocean_water();
        let ocean = crate::lists::some_where(all, p);
        let front = if ocean {
            seq![OCEAN]
        } else {
            Seq::empty()
        };
        let lakes = self.lakes(sid).filter(self.shared_lake(sid));
        assert(ocean == self.on_ocean(sid)) by {
            if ocean {
                let i = choose|i: int| 0 <= i < all.len() && p(#[trigger] all[i]);
                assert(all.contains(all[i]));
                self.lemma_offshore(sid, all[i]);
                let shore = choose|shore: TileRef| #[trigger] self.is_off(sid, shore, all[i]);
                assert(self.is_off(sid, shore, all[i]));
            }
            if self.on_ocean(sid) {
                let (shore, water) = choose|shore: TileRef, water: TileRef| #[trigger]
                    self.is_off(sid, shore, water) && self.map.is_water(water) && self.map.is_ocean(
                        water,
                    );
                self.lemma_offshore(sid, water);
                let i = choose|i: int| 0 <= i < all.len() && all[i] == water;
                assert(p(all[i]));
            }
        }
        crate::lists::lemma_filter_members(self.lakes(sid), self.shared_lake(sid));
        self.lemma_lakes(sid, body);
        let traders = self.traders();
        let q = self.lake_partner(sid, body);
        assert(crate::lists::some_where(traders, q) == self.has_partner(sid, body)) by {
            if crate::lists::some_where(traders, q) {
                let i = choose|i: int| 0 <= i < traders.len() && q(#[trigger] traders[i]);
                assert(traders.contains(traders[i]));
                self.lemma_lakes(traders[i], body);
            }
            if self.has_partner(sid, body) {
                let id = choose|id: u16| #[trigger]
                    traders.contains(id) && id != sid && self.on_lake(id, body) && self.can_trade(
                        sid,
                        id,
                    );
                self.lemma_lakes(id, body);
                let i = choose|i: int| 0 <= i < traders.len() && traders[i] == id;
                assert(q(traders[i]));
            }
        }
        let bodies = self.trade_bodies(sid);
        assert(bodies == front + lakes);
        assert(lakes.contains(body) == (self.on_lake(sid, body) && self.has_partner(sid, body)));
        if ocean {
            assert(bodies[0] == OCEAN);
        }
        if lakes.contains(body) {
            let k = choose|k: int| 0 <= k < lakes.len() && lakes[k] == body;
            assert(bodies[front.len() + k] == body);
        }
        if bodies.contains(body) {
            let k = choose|k: int| 0 <= k < bodies.len() && bodies[k] == body;
            if k >= front.len() {
                assert(lakes[k - front.len()] == body);
            }
        }
    }
}

pub proof fn lemma_flattened(map: MapView, tiles: Seq<TileRef>, t: TileRef)
    ensures
        crate::ai_attack::flatten_neighbors(map, tiles).contains(t) == (exists|x: TileRef|
            #[trigger] tiles.contains(x) && map.neighbors4(x).contains(t)),
    decreases tiles.len(),
{
    if tiles.len() > 0 {
        let front = tiles.drop_last();
        let last = tiles.last();
        let a = crate::ai_attack::flatten_neighbors(map, front);
        let b = map.neighbors4(last);
        let all = crate::ai_attack::flatten_neighbors(map, tiles);
        lemma_flattened(map, front, t);
        assert(tiles[tiles.len() - 1] == last && tiles.contains(last));
        if all.contains(t) {
            let k = choose|k: int| 0 <= k < all.len() && all[k] == t;
            if k < a.len() {
                assert(a[k] == t);
                let x = choose|x: TileRef| #[trigger]
                    front.contains(x) && map.neighbors4(x).contains(t);
                let i = choose|i: int| 0 <= i < front.len() && front[i] == x;
                assert(tiles[i] == x);
                assert(tiles.contains(x));
            } else {
                assert(b[k - a.len()] == t);
            }
        }
        if exists|x: TileRef| #[trigger] tiles.contains(x) && map.neighbors4(x).contains(t) {
            let x = choose|x: TileRef| #[trigger]
                tiles.contains(x) && map.neighbors4(x).contains(t);
            let i = choose|i: int| 0 <= i < tiles.len() && tiles[i] == x;
            if i < front.len() {
                assert(front[i] == x);
                assert(front.contains(x));
                let k = choose|k: int| 0 <= k < a.len() && a[k] == t;
                assert(all[k] == t);
            } else {
                let k = choose|k: int| 0 <= k < b.len() && b[k] == t;
                assert(all[a.len() + k] == t);
            }
        }
    }
}

} // verus!
