//! Land that a player loses because it is surrounded.

use vstd::prelude::*;

use crate::game::{Game, GameView};
use crate::game_land::BBox;
use crate::map::{GameMap, MapView};
use crate::ordered_tiles::TileRef;
use crate::state::{LandAttack, LandAttackView, Player};

verus! {

/// The ticks between two looks at the clusters of a large player.
pub const TICKS_PER_CLUSTER_CALC: u32 = 20;

/// A player with fewer tiles is looked at whenever its land changed.
pub const LARGE_PLAYER_TILES: i64 = 100;

/// The tiles that are reached from those on a stack, depth first, over tiles that fulfil
/// `p`, after those that are `held`.
pub open spec fn deepened(
    map: MapView,
    stack: Seq<TileRef>,
    held: Seq<TileRef>,
    p: spec_fn(TileRef) -> bool,
    eight: bool,
) -> Seq<TileRef>
    decreases map.tiles.len() - held.len(), stack.len(),
{
    if stack.len() == 0 || held.len() >= map.tiles.len() {
        held
    } else {
        let t = stack.last();
        if held.contains(t) || !p(t) {
            deepened(map, stack.drop_last(), held, p, eight)
        } else {
            deepened(map, stack.drop_last() + map.around_tile(t, eight), held.push(t), p, eight)
        }
    }
}

/// Whether one of some clusters holds a tile.
pub open spec fn in_any(clusters: Seq<Seq<TileRef>>, t: TileRef) -> bool {
    exists|i: int| 0 <= i < clusters.len() && (#[trigger] clusters[i]).contains(t)
}

/// Border tiles that no cluster holds yet.
pub open spec fn unclustered(border: Seq<TileRef>, clusters: Seq<Seq<TileRef>>) -> spec_fn(
    TileRef,
) -> bool {
    |t: TileRef| border.contains(t) && !in_any(clusters, t)
}

/// The first of the largest of some clusters.
pub open spec fn largest_cluster(clusters: Seq<Seq<TileRef>>) -> int
    decreases clusters.len(),
{
    if clusters.len() <= 1 {
        0
    } else {
        let at = largest_cluster(clusters.drop_last());
        if clusters.last().len() > clusters[at].len() {
            clusters.len() - 1
        } else {
            at
        }
    }
}

/// The position of a player in a list of counts, or the length.
pub open spec fn claim_at(claims: Seq<(u16, u32)>, sid: u16) -> int
    decreases claims.len(),
{
    if claims.len() == 0 {
        0
    } else if claims[0].0 == sid {
        0
    } else {
        1 + claim_at(claims.skip(1), sid)
    }
}

/// Counts after one more for a player.
pub open spec fn with_claim(claims: Seq<(u16, u32)>, sid: u16) -> Seq<(u16, u32)> {
    let at = claim_at(claims, sid);
    if at < claims.len() {
        claims.update(
            at,
            (
                sid,
                if claims[at].1 == u32::MAX {
                    u32::MAX
                } else {
                    (claims[at].1 + 1) as u32
                },
            ),
        )
    } else {
        claims.push((sid, 1))
    }
}

/// The first of the players with the highest count, and that count.
pub open spec fn top_claim(claims: Seq<(u16, u32)>) -> Option<(u16, u32)>
    decreases claims.len(),
{
    if claims.len() == 0 {
        None
    } else {
        match top_claim(claims.drop_last()) {
            Some(best) => if claims.last().1 > best.1 {
                Some(claims.last())
            } else {
                Some(best)
            },
            None => Some(claims.last()),
        }
    }
}

impl MapView {
    pub open spec fn around_tile(self, t: TileRef, eight: bool) -> Seq<TileRef> {
        if eight {
            self.neighbors8(t)
        } else {
            self.neighbors4(t)
        }
    }

    /// The tiles that are reached from `t` over tiles that fulfil `p`, depth first.
    pub open spec fn deep(self, t: TileRef, p: spec_fn(TileRef) -> bool, eight: bool) -> Seq<TileRef> {
        deepened(self, seq![t], Seq::empty(), p, eight)
    }

    /// The clusters that the first `n` tiles of a border lie in: border tiles that touch
    /// each other, also at their corners.
    pub open spec fn clusters(self, border: Seq<TileRef>, n: nat) -> Seq<Seq<TileRef>>
        decreases n,
    {
        if n == 0 {
            Seq::empty()
        } else {
            let before = self.clusters(border, (n - 1) as nat);
            let start = border[n - 1];
            if in_any(before, start) {
                before
            } else {
                before.push(self.deep(start, unclustered(border, before), true))
            }
        }
    }

    /// Tiles that nobody can surround.
    pub open spec fn open_to_sea(self) -> spec_fn(TileRef) -> bool {
        |t: TileRef| self.is_ocean_shore(t) || self.on_edge(t)
    }

    pub open spec fn open_to_water(self) -> spec_fn(TileRef) -> bool {
        |t: TileRef| self.is_shore(t) || self.on_edge(t)
    }

    /// Tiles of others than this player.
    pub open spec fn foreign(self, sid: u16) -> spec_fn(TileRef) -> bool {
        |t: TileRef| self.owner(t) != sid
    }

    pub open spec fn unowned(self) -> spec_fn(TileRef) -> bool {
        |t: TileRef| self.owner(t) == 0
    }

    /// Tiles of other players than this.
    pub open spec fn hostile(self, sid: u16) -> spec_fn(TileRef) -> bool {
        |t: TileRef| self.owner(t) != 0 && self.owner(t) != sid
    }

    /// Tiles of others than these two players.
    pub open spec fn third_party(self, sid: u16, other: u16) -> spec_fn(TileRef) -> bool {
        |t: TileRef| self.owner(t) != sid && self.owner(t) != other
    }

    /// Whether the box around `outer` holds the box around `inner`.
    pub open spec fn boxed(self, outer: Seq<TileRef>, inner: Seq<TileRef>) -> bool {
        match (self.bbox(outer), self.bbox(inner)) {
            (Some(o), Some(i)) => o.holds(i),
            _ => false,
        }
    }
}

impl GameView {
    /// The enemy that surrounds a cluster: all land around it is the enemy's or the player's
    /// own, no tile of it lies at the sea or at the edge of the map, its first tile borders
    /// on the enemy, and the box around the enemy's tiles holds the cluster's.
    pub open spec fn encircler(self, sid: u16, cluster: Seq<TileRef>) -> Option<u16> {
        let near = crate::ai_attack::flatten_neighbors(self.map, cluster);
        let rim = near.filter(self.map.foreign(sid));
        if cluster.len() == 0 || crate::lists::some_where(cluster, self.map.open_to_sea())
            || crate::lists::some_where(near, self.map.unowned()) || !crate::lists::some_where(
            self.map.neighbors4(cluster[0]),
            self.map.foreign(sid),
        ) || rim.len() == 0 {
            None
        } else {
            let enemy = self.map.owner(rim[0]);
            if crate::lists::some_where(near, self.map.third_party(sid, enemy)) || self.is_friendly(
                enemy,
                sid,
            ) || !self.map.boxed(rim, cluster) {
                None
            } else {
                Some(enemy)
            }
        }
    }

    /// Whether others surround a cluster.
    pub open spec fn enclosed(self, sid: u16, cluster: Seq<TileRef>) -> bool {
        !crate::lists::some_where(cluster, self.map.open_to_water()) && self.map.boxed(
            crate::ai_attack::flatten_neighbors(self.map, cluster).filter(self.map.hostile(sid)),
            cluster,
        )
    }

    /// How many of `tiles` each enemy of a player owns.
    pub open spec fn claims(self, sid: u16, tiles: Seq<TileRef>) -> Seq<(u16, u32)>
        decreases tiles.len(),
    {
        if tiles.len() == 0 {
            Seq::empty()
        } else {
            let before = self.claims(sid, tiles.drop_last());
            let owner = self.map.owner(tiles.last());
            if owner == 0 || owner == sid || self.is_friendly(owner, sid) {
                before
            } else {
                with_claim(before, owner)
            }
        }
    }

    /// The larger of the attacks of `by` on a player and one of `most` troops.
    pub open spec fn strongest_attack(
        self,
        sid: u16,
        by: u16,
        attacks: Seq<LandAttackView>,
        best: (Option<u16>, int),
    ) -> (Option<u16>, int)
        decreases attacks.len(),
    {
        if attacks.len() == 0 {
            best
        } else {
            let before = self.strongest_attack(sid, by, attacks.drop_last(), best);
            let a = attacks.last();
            if a.attacker == by && a.target == sid && a.troops > before.1 {
                (Some(by), a.troops as int)
            } else {
                before
            }
        }
    }

    /// Who of the claimants attacks a player with the most troops.
    pub open spec fn main_claimant(self, sid: u16, claims: Seq<(u16, u32)>) -> (Option<u16>, int)
        decreases claims.len(),
    {
        if claims.len() == 0 {
            (None, 0)
        } else {
            self.strongest_attack(
                sid,
                claims.last().0,
                self.attacks,
                self.main_claimant(sid, claims.drop_last()),
            )
        }
    }

    /// Who gets a surrounded cluster: the neighbor with the largest attack, or the one with
    /// the longest border.
    pub open spec fn captor(self, sid: u16, cluster: Seq<TileRef>) -> Option<u16> {
        let claims = self.claims(
            sid,
            crate::ai_attack::flatten_neighbors(self.map, cluster),
        );
        match self.main_claimant(sid, claims).0 {
            Some(attacker) => Some(attacker),
            None => match top_claim(claims) {
                Some(best) => Some(best.0),
                None => None,
            },
        }
    }

    /// The game after a player's last gold went to the one that conquered it.
    pub open spec fn plundering(self, captor: u16, sid: u16) -> GameView {
        self.enriching(sid, -self.gold(sid)).enriching(captor, self.gold(sid))
    }

    /// The game after a player took `tiles`.
    pub open spec fn taking(self, sid: u16, tiles: Seq<TileRef>) -> GameView
        decreases tiles.len(),
    {
        if tiles.len() == 0 {
            self
        } else {
            self.taking(sid, tiles.drop_last()).transferring(tiles.last(), sid, true)
        }
    }

    /// The game after a player lost the land that a cluster bounds. With its last land it
    /// loses its gold.
    pub open spec fn annexing(self, sid: u16, cluster: Seq<TileRef>) -> GameView {
        if cluster.len() == 0 || crate::lists::some_where(cluster, self.map.foreign(sid)) {
            self
        } else {
            match self.captor(sid, cluster) {
                Some(captor) => {
                    let land = self.map.deep(cluster[0], self.map.owned_by(sid), false);
                    let taken = if self.has(sid) && self.player(sid).tiles_owned == land.len() {
                        self.plundering(captor, sid)
                    } else {
                        self
                    };
                    taken.taking(captor, land)
                },
                None => self,
            }
        }
    }

    /// The game after the first `n` of some clusters but one were lost where they are
    /// enclosed.
    pub open spec fn annexing_minor(
        self,
        sid: u16,
        clusters: Seq<Seq<TileRef>>,
        main: int,
        n: nat,
    ) -> GameView
        decreases n,
    {
        if n == 0 {
            self
        } else {
            let before = self.annexing_minor(sid, clusters, main, (n - 1) as nat);
            let cluster = clusters[n - 1];
            if n - 1 != main && before.enclosed(sid, cluster) {
                before.annexing(sid, cluster)
            } else {
                before
            }
        }
    }

    /// The game after a player lost its surrounded clusters.
    pub open spec fn annexing_clusters(self, sid: u16) -> GameView {
        let clusters = self.map.clusters(self.border(sid), self.border(sid).len());
        if clusters.len() == 0 {
            self
        } else {
            let main = largest_cluster(clusters);
            let first = if self.encircler(sid, clusters[main]) is Some {
                self.annexing(sid, clusters[main])
            } else {
                self
            };
            first.annexing_minor(sid, clusters, main, clusters.len())
        }
    }

    /// The game after it was noted when a player's clusters were looked at.
    pub open spec fn noting_clusters(self, sid: u16, tick: u32) -> GameView {
        self.with_player(sid, Player { last_cluster_calc: tick, ..self.player(sid) })
    }

    /// When a player's clusters were last looked at; at first a moment that its name gives.
    pub open spec fn clusters_seen(self, sid: u16, tick: u32) -> u32 {
        let p = self.player(sid);
        if p.last_cluster_calc == 0 {
            later(tick, (crate::util::hash_of(p.name@) % (TICKS_PER_CLUSTER_CALC as int)) as u32)
        } else {
            p.last_cluster_calc
        }
    }

    /// The game after a player's clusters may have been looked at: not too often where it is
    /// large, and only after its land changed.
    pub open spec fn pruning(self, sid: u16, tick: u32) -> GameView {
        if !self.is_alive(sid) || self.tiles_owned(sid) == 0 {
            self
        } else {
            let seen = self.clusters_seen(sid, tick);
            let noted = if self.player(sid).last_cluster_calc == 0 {
                self.noting_clusters(sid, seen)
            } else {
                self
            };
            if tick - seen <= TICKS_PER_CLUSTER_CALC && self.tiles_owned(sid) >= LARGE_PLAYER_TILES {
                noted
            } else if self.player(sid).last_tile_change < seen {
                noted
            } else {
                noted.noting_clusters(sid, tick).annexing_clusters(sid)
            }
        }
    }
}

/// A tick `n` ticks later, in 32 bits.
pub open spec fn later(tick: u32, n: u32) -> u32 {
    if tick + n > u32::MAX {
        (tick + n - 0x1_0000_0000) as u32
    } else {
        (tick + n) as u32
    }
}

pub fn tick_later(tick: u32, n: u32) -> (after: u32)
    ensures
        after == later(tick, n),
{
    if tick > u32::MAX - n {
        (tick as u64 + n as u64 - 0x1_0000_0000) as u32
    } else {
        tick + n
    }
}

/// The tiles that are reached from `start` over tiles that fulfil a test, depth first.
pub fn deepen<F: Fn(TileRef) -> bool>(
    map: &GameMap,
    start: TileRef,
    f: F,
    Ghost(p): Ghost<spec_fn(TileRef) -> bool>,
    eight: bool,
) -> (tiles: Vec<TileRef>)
    requires
        map@.wf(),
        map@.valid(start),
        forall|t: TileRef| map@.valid(t) ==> #[trigger] call_requires(f, (t,)),
        forall|t: TileRef, b: bool|
            map@.valid(t) && #[trigger] call_ensures(f, (t,), b) ==> b == p(t),
    ensures
        tiles@ == map@.deep(start, p, eight),
        forall|i: int| 0 <= i < tiles@.len() ==> map@.valid(#[trigger] tiles@[i]),
{
    let n: usize = map.tiles.len();
    let mut seen: Vec<bool> = Vec::new();
    for i in 0..n
        invariant
            seen@.len() == i,
            forall|k: int| 0 <= k < i ==> !(#[trigger] seen@[k]),
    {
        seen.push(false);
    }
    let mut stack: Vec<TileRef> = Vec::new();
    stack.push(start);
    let mut tiles: Vec<TileRef> = Vec::new();
    let ghost goal = map@.deep(start, p, eight);
    assert(stack@ =~= seq![start]);
    assert(tiles@ =~= Seq::empty());
    while stack.len() > 0 && tiles.len() < n
        invariant
            map@.wf(),
            n == map@.tiles.len(),
            seen@.len() == n,
            forall|t: TileRef| map@.valid(t) ==> #[trigger] call_requires(f, (t,)),
            forall|t: TileRef, b: bool|
                map@.valid(t) && #[trigger] call_ensures(f, (t,), b) ==> b == p(t),
            forall|k: int| 0 <= k < stack@.len() ==> map@.valid(#[trigger] stack@[k]),
            forall|k: int| 0 <= k < tiles@.len() ==> map@.valid(#[trigger] tiles@[k]),
            forall|t: TileRef| map@.valid(t) ==> (#[trigger] tiles@.contains(t)) == seen@[t as int],
            deepened(map@, stack@, tiles@, p, eight) == goal,
        decreases n - tiles.len(), stack.len(),
    {
        let ghost before = stack@;
        let ghost held = tiles@;
        let t: TileRef = match stack.pop() {
            Some(t) => t,
            None => start,
        };
        assert(before.last() == t && stack@ =~= before.drop_last());
        assert(held.contains(t) == seen@[t as int]);
        if !seen[t as usize] && f(t) {
            seen.set(t as usize, true);
            tiles.push(t);
            let mut next = if eight {
                map.neighbors8(t)
            } else {
                map.neighbors4(t)
            };
            stack.append(&mut next);
            assert forall|x: TileRef| map@.valid(x) implies (#[trigger] tiles@.contains(x))
                == seen@[x as int] by {
                lemma_push_contains(held, t, x);
            }
        }
    }
    tiles
}

proof fn lemma_push_contains(s: Seq<TileRef>, t: TileRef, x: TileRef)
    ensures
        s.push(t).contains(x) == (s.contains(x) || x == t),
{
    if s.contains(x) {
        let i = choose|i: int| 0 <= i < s.len() && s[i] == x;
        assert(s.push(t)[i] == x);
    }
    if x == t {
        assert(s.push(t)[s.len() as int] == x);
    }
    if s.push(t).contains(x) {
        let i = choose|i: int| 0 <= i < s.push(t).len() && s.push(t)[i] == x;
        if i < s.len() {
            assert(s[i] == x);
        }
    }
}

/// Clusters as contracts see them.
pub open spec fn cluster_views(clusters: Seq<Vec<TileRef>>) -> Seq<Seq<TileRef>> {
    clusters.map_values(|c: Vec<TileRef>| c@)
}

fn is_in_any(clusters: &Vec<Vec<TileRef>>, t: TileRef) -> (inside: bool)
    ensures
        inside == in_any(cluster_views(clusters@), t),
{
    for i in 0..clusters.len()
        invariant
            forall|k: int| 0 <= k < i ==> !(#[trigger] cluster_views(clusters@)[k]).contains(t),
    {
        assert(cluster_views(clusters@)[i as int] == clusters@[i as int]@);
        if crate::spawn_tiles::has_tile(&clusters[i], t) {
            return true;
        }
    }
    false
}

/// The clusters of a player's border.
pub fn calculate_clusters(game: &Game, small_id: u16) -> (clusters: Vec<Vec<TileRef>>)
    requires
        game@.wf(),
    ensures
        cluster_views(clusters@) == game@.map.clusters(
            game@.border(small_id),
            game@.border(small_id).len(),
        ),
        forall|i: int, j: int|
            0 <= i < clusters@.len() && 0 <= j < clusters@[i]@.len() ==> game@.map.valid(
                #[trigger] clusters@[i]@[j],
            ),
{
    let border = game.border_tiles_for(small_id);
    let mut clusters: Vec<Vec<TileRef>> = Vec::new();
    assert(cluster_views(clusters@) =~= Seq::empty());
    for n in 0..border.len()
        invariant
            game@.wf(),
            border@ == game@.border(small_id),
            forall|k: int| 0 <= k < border@.len() ==> game@.map.valid(#[trigger] border@[k]),
            cluster_views(clusters@) == game@.map.clusters(border@, n as nat),
            forall|i: int, j: int|
                0 <= i < clusters@.len() && 0 <= j < clusters@[i]@.len() ==> game@.map.valid(
                    #[trigger] clusters@[i]@[j],
                ),
    {
        let start: TileRef = border[n];
        assert(game@.map.valid(border@[n as int]));
        if !is_in_any(&clusters, start) {
            let ghost before = clusters@;
            let ghost p = unclustered(border@, cluster_views(before));
            let clusters_now: &Vec<Vec<TileRef>> = &clusters;
            let accepts = |t: TileRef| -> (fresh: bool)
                ensures
                    fresh == unclustered(border@, cluster_views(clusters_now@))(t),
                {
                    crate::spawn_tiles::has_tile(&border, t) && !is_in_any(clusters_now, t)
                };
            let cluster = deepen(&game.map, start, accepts, Ghost(p), true);
            let ghost found = cluster@;
            clusters.push(cluster);
            assert(cluster_views(clusters@) =~= cluster_views(before).push(found));
            assert forall|i: int, j: int|
                0 <= i < clusters@.len() && 0 <= j < clusters@[i]@.len() implies game@.map.valid(
                #[trigger] clusters@[i]@[j],
            ) by {
                if i < before.len() {
                    assert(clusters@[i] == before[i]);
                }
            }
        }
    }
    clusters
}

/// The tiles next to those of a cluster.
fn tiles_around(game: &Game, cluster: &Vec<TileRef>) -> (tiles: Vec<TileRef>)
    requires
        game@.wf(),
        forall|i: int| 0 <= i < cluster@.len() ==> game@.map.valid(#[trigger] cluster@[i]),
    ensures
        tiles@ == crate::ai_attack::flatten_neighbors(game@.map, cluster@),
        forall|i: int| 0 <= i < tiles@.len() ==> game@.map.valid(#[trigger] tiles@[i]),
{
    let mut tiles: Vec<TileRef> = Vec::new();
    assert(cluster@.take(0) =~= Seq::<TileRef>::empty());
    for i in 0..cluster.len()
        invariant
            game@.wf(),
            forall|k: int| 0 <= k < cluster@.len() ==> game@.map.valid(#[trigger] cluster@[k]),
            tiles@ == crate::ai_attack::flatten_neighbors(game@.map, cluster@.take(i as int)),
            forall|k: int| 0 <= k < tiles@.len() ==> game@.map.valid(#[trigger] tiles@[k]),
    {
        assert(cluster@.take(i + 1).drop_last() =~= cluster@.take(i as int));
        let mut next = game.map.neighbors4(cluster[i]);
        tiles.append(&mut next);
    }
    proof {
        crate::lists::lemma_take_all(cluster@);
    }
    tiles
}

/// Whether the box around `outer` holds the box around `inner`.
fn is_boxed(game: &Game, outer: &Vec<TileRef>, inner: &Vec<TileRef>) -> (boxed: bool)
    requires
        game@.wf(),
        forall|i: int| 0 <= i < outer@.len() ==> game@.map.valid(#[trigger] outer@[i]),
        forall|i: int| 0 <= i < inner@.len() ==> game@.map.valid(#[trigger] inner@[i]),
    ensures
        boxed == game@.map.boxed(outer@, inner@),
{
    match (game.bounding_box(outer), game.bounding_box(inner)) {
        (Some(o), Some(i)) => inscribed(o, i),
        _ => false,
    }
}

/// Whether a box holds another.
pub fn inscribed(outer: BBox, inner: BBox) -> (holds: bool)
    ensures
        holds == outer.holds(inner),
{
    outer.min_x <= inner.min_x && outer.min_y <= inner.min_y && outer.max_x >= inner.max_x
        && outer.max_y >= inner.max_y
}

/// Those of some tiles that another than this player owns.
fn foreign_tiles(game: &Game, small_id: u16, tiles: &Vec<TileRef>) -> (rim: Vec<TileRef>)
    requires
        forall|i: int| 0 <= i < tiles@.len() ==> game@.map.valid(#[trigger] tiles@[i]),
    ensures
        rim@ == tiles@.filter(game@.map.foreign(small_id)),
        forall|i: int| 0 <= i < rim@.len() ==> game@.map.valid(#[trigger] rim@[i]),
{
    let accepts = |t: TileRef| -> (theirs: bool)
        requires
            game@.map.valid(t),
        ensures
            theirs == game@.map.foreign(small_id)(t),
        { game.map.owner_id(t) != small_id };
    let rim = crate::lists::filter_by(tiles, accepts, Ghost(game@.map.foreign(small_id)));
    assert forall|i: int| 0 <= i < rim@.len() implies game@.map.valid(#[trigger] rim@[i]) by {
        assert(tiles@.contains(rim@[i]));
    }
    rim
}

fn any_foreign(game: &Game, small_id: u16, tiles: &Vec<TileRef>) -> (any: bool)
    requires
        forall|i: int| 0 <= i < tiles@.len() ==> game@.map.valid(#[trigger] tiles@[i]),
    ensures
        any == crate::lists::some_where(tiles@, game@.map.foreign(small_id)),
{
    let accepts = |t: TileRef| -> (theirs: bool)
        requires
            game@.map.valid(t),
        ensures
            theirs == game@.map.foreign(small_id)(t),
        { game.map.owner_id(t) != small_id };
    crate::lists::any_by(tiles, accepts, Ghost(game@.map.foreign(small_id)))
}

/// The enemy that surrounds a cluster.
pub fn surrounded_by_same_enemy(game: &Game, small_id: u16, cluster: &Vec<TileRef>) -> (enemy: Option<
    u16,
>)
    requires
        game@.wf(),
        forall|i: int| 0 <= i < cluster@.len() ==> game@.map.valid(#[trigger] cluster@[i]),
    ensures
        enemy == game@.encircler(small_id, cluster@),
{
    if cluster.len() == 0 {
        return None;
    }
    let at_sea = |t: TileRef| -> (open: bool)
        requires
            game@.map.valid(t),
        ensures
            open == game@.map.open_to_sea()(t),
        { game.map.is_ocean_shore(t) || game.map.is_on_edge_of_map(t) };
    if crate::lists::any_by(cluster, at_sea, Ghost(game@.map.open_to_sea())) {
        return None;
    }
    let near = tiles_around(game, cluster);
    let unowned = |t: TileRef| -> (free: bool)
        requires
            game@.map.valid(t),
        ensures
            free == game@.map.unowned()(t),
        { game.map.owner_id(t) == 0 };
    if crate::lists::any_by(&near, unowned, Ghost(game@.map.unowned())) {
        return None;
    }
    assert(game@.map.valid(cluster@[0]));
    let first = game.map.neighbors4(cluster[0]);
    if !any_foreign(game, small_id, &first) {
        return None;
    }
    let rim = foreign_tiles(game, small_id, &near);
    if rim.len() == 0 {
        return None;
    }
    assert(game@.map.valid(rim@[0]));
    let enemy: u16 = game.map.owner_id(rim[0]);
    let third = |t: TileRef| -> (other: bool)
        requires
            game@.map.valid(t),
        ensures
            other == game@.map.third_party(small_id, enemy)(t),
        { game.map.owner_id(t) != small_id && game.map.owner_id(t) != enemy };
    if crate::lists::any_by(&near, third, Ghost(game@.map.third_party(small_id, enemy)))
        || game.is_friendly(enemy, small_id) {
        return None;
    }
    if is_boxed(game, &rim, cluster) {
        Some(enemy)
    } else {
        None
    }
}

/// Whether others surround a cluster.
pub fn is_surrounded(game: &Game, small_id: u16, cluster: &Vec<TileRef>) -> (surrounded: bool)
    requires
        game@.wf(),
        forall|i: int| 0 <= i < cluster@.len() ==> game@.map.valid(#[trigger] cluster@[i]),
    ensures
        surrounded == game@.enclosed(small_id, cluster@),
{
    let at_water = |t: TileRef| -> (open: bool)
        requires
            game@.map.valid(t),
        ensures
            open == game@.map.open_to_water()(t),
        { game.map.is_shore(t) || game.map.is_on_edge_of_map(t) };
    if crate::lists::any_by(cluster, at_water, Ghost(game@.map.open_to_water())) {
        return false;
    }
    let near = tiles_around(game, cluster);
    let hostile = |t: TileRef| -> (theirs: bool)
        requires
            game@.map.valid(t),
        ensures
            theirs == game@.map.hostile(small_id)(t),
        { game.map.owner_id(t) != 0 && game.map.owner_id(t) != small_id };
    let rim = crate::lists::filter_by(&near, hostile, Ghost(game@.map.hostile(small_id)));
    assert forall|i: int| 0 <= i < rim@.len() implies game@.map.valid(#[trigger] rim@[i]) by {
        assert(near@.contains(rim@[i]));
    }
    is_boxed(game, &rim, cluster)
}

fn add_claim(claims: &mut Vec<(u16, u32)>, sid: u16)
    ensures
        final(claims)@ == with_claim(old(claims)@, sid),
{
    let n: usize = claims.len();
    proof {
        crate::lists::lemma_take_all(claims@);
    }
    let mut at: usize = 0;
    while at < n && claims[at].0 != sid
        invariant
            at <= n,
            n == claims@.len(),
            claim_at(claims@, sid) == at + claim_at(claims@.skip(at as int), sid),
        decreases n - at,
    {
        assert(claims@.skip(at as int).skip(1) =~= claims@.skip(at + 1));
        at = at + 1;
    }
    if at < n {
        let count: u32 = if claims[at].1 == u32::MAX {
            u32::MAX
        } else {
            claims[at].1 + 1
        };
        claims.set(at, (sid, count));
    } else {
        claims.push((sid, 1));
    }
}

/// How many tiles around a cluster each enemy of a player owns.
fn claims_on(game: &Game, small_id: u16, cluster: &Vec<TileRef>) -> (claims: Vec<(u16, u32)>)
    requires
        game@.wf(),
        forall|i: int| 0 <= i < cluster@.len() ==> game@.map.valid(#[trigger] cluster@[i]),
    ensures
        claims@ == game@.claims(
            small_id,
            crate::ai_attack::flatten_neighbors(game@.map, cluster@),
        ),
{
    let near = tiles_around(game, cluster);
    let mut claims: Vec<(u16, u32)> = Vec::new();
    assert(near@.take(0) =~= Seq::empty());
    for i in 0..near.len()
        invariant
            game@.wf(),
            forall|k: int| 0 <= k < near@.len() ==> game@.map.valid(#[trigger] near@[k]),
            claims@ == game@.claims(small_id, near@.take(i as int)),
    {
        assert(near@.take(i + 1).drop_last() =~= near@.take(i as int));
        assert(game@.map.valid(near@[i as int]));
        let owner: u16 = game.map.owner_id(near[i]);
        if owner != 0 && owner != small_id && !game.is_friendly(owner, small_id) {
            add_claim(&mut claims, owner);
        }
    }
    proof {
        crate::lists::lemma_take_all(near@);
    }
    claims
}

/// Who of the claimants attacks a player with the most troops.
pub fn largest_incoming_land_attack_from_neighbors(
    game: &Game,
    small_id: u16,
    claims: &Vec<(u16, u32)>,
) -> (attacker: Option<u16>)
    ensures
        attacker == game@.main_claimant(small_id, claims@).0,
{
    let mut best: Option<u16> = None;
    let mut most: i64 = 0;
    assert(claims@.take(0) =~= Seq::empty());
    for i in 0..claims.len()
        invariant
            (best, most as int) == game@.main_claimant(small_id, claims@.take(i as int)),
    {
        assert(claims@.take(i + 1).drop_last() =~= claims@.take(i as int));
        let by: u16 = claims[i].0;
        let ghost start = (best, most as int);
        assert(game@.attacks.take(0) =~= Seq::empty());
        for j in 0..game.attacks.len()
            invariant
                (best, most as int) == game@.strongest_attack(
                    small_id,
                    by,
                    game@.attacks.take(j as int),
                    start,
                ),
        {
            assert(game@.attacks.take(j + 1).drop_last() =~= game@.attacks.take(j as int));
            let a: &LandAttack = &game.attacks[j];
            if a.attacker == by && a.target == small_id && a.troops > most {
                best = Some(by);
                most = a.troops;
            }
        }
        proof {
            crate::lists::lemma_take_all(game@.attacks);
        }
    }
    proof {
        crate::lists::lemma_take_all(claims@);
    }
    best
}

/// Who gets a surrounded cluster.
pub fn get_capturing_player(game: &Game, small_id: u16, cluster: &Vec<TileRef>) -> (captor: Option<
    u16,
>)
    requires
        game@.wf(),
        forall|i: int| 0 <= i < cluster@.len() ==> game@.map.valid(#[trigger] cluster@[i]),
    ensures
        captor == game@.captor(small_id, cluster@),
{
    let claims = claims_on(game, small_id, cluster);
    match largest_incoming_land_attack_from_neighbors(game, small_id, &claims) {
        Some(attacker) => return Some(attacker),
        None => {},
    }
    let mut best: Option<(u16, u32)> = None;
    assert(claims@.take(0) =~= Seq::empty());
    for i in 0..claims.len()
        invariant
            best == top_claim(claims@.take(i as int)),
    {
        assert(claims@.take(i + 1).drop_last() =~= claims@.take(i as int));
        let better: bool = match best {
            Some(b) => claims[i].1 > b.1,
            None => true,
        };
        if better {
            best = Some(claims[i]);
        }
    }
    proof {
        crate::lists::lemma_take_all(claims@);
    }
    match best {
        Some(b) => Some(b.0),
        None => None,
    }
}

impl Game {
    /// Gives the gold of a conquered player to the one that conquered it.
    pub fn conquer_player(&mut self, captor: u16, conquered: u16)
        requires
            old(self).wf(),
        ensures
            final(self).wf(),
            final(self)@ == old(self)@.plundering(captor, conquered),
    {
        let gold: i64 = self.gold_of(conquered);
        self.add_gold(conquered, -gold);
        self.add_gold(captor, gold);
    }

    fn take_tiles(&mut self, sid: u16, tiles: &Vec<TileRef>)
        requires
            old(self).wf(),
            forall|i: int| 0 <= i < tiles@.len() ==> old(self)@.map.valid(#[trigger] tiles@[i]),
        ensures
            final(self).wf(),
            final(self)@ == old(self)@.taking(sid, tiles@),
    {
        let ghost before = self@;
        assert(tiles@.take(0) =~= Seq::empty());
        for i in 0..tiles.len()
            invariant
                self.wf(),
                self@ == before.taking(sid, tiles@.take(i as int)),
                self@.map.tiles.len() == before.map.tiles.len(),
                forall|k: int| 0 <= k < tiles@.len() ==> before.map.valid(#[trigger] tiles@[k]),
        {
            assert(tiles@.take(i + 1).drop_last() =~= tiles@.take(i as int));
            assert(before.map.valid(tiles@[i as int]));
            self.conquer(sid, tiles[i]);
        }
        proof {
            crate::lists::lemma_take_all(tiles@);
        }
    }

    pub(crate) fn note_clusters(&mut self, sid: u16, tick: u32)
        requires
            old(self).wf(),
            old(self)@.has(sid),
        ensures
            final(self).wf(),
            final(self)@ == old(self)@.noting_clusters(sid, tick),
    {
        self.players[sid as usize - 1].last_cluster_calc = tick;
    }
}

/// Lets a player lose the land that a cluster bounds.
pub fn remove_cluster(game: &mut Game, small_id: u16, cluster: &Vec<TileRef>)
    requires
        old(game).wf(),
        forall|i: int| 0 <= i < cluster@.len() ==> old(game)@.map.valid(#[trigger] cluster@[i]),
    ensures
        final(game).wf(),
        final(game)@ == old(game)@.annexing(small_id, cluster@),
        final(game)@.map.tiles.len() == old(game)@.map.tiles.len(),
{
    if cluster.len() == 0 || any_foreign(game, small_id, cluster) {
        return;
    }
    let captor: u16 = match get_capturing_player(game, small_id, cluster) {
        Some(captor) => captor,
        None => return,
    };
    assert(game@.map.valid(cluster@[0]));
    let game_now: &Game = game;
    let own = |t: TileRef| -> (mine: bool)
        requires
            game_now@.map.valid(t),
        ensures
            mine == game_now@.map.owned_by(small_id)(t),
        { game_now.map.owner_id(t) == small_id };
    let land = deepen(
        &game_now.map,
        cluster[0],
        own,
        Ghost(game_now@.map.owned_by(small_id)),
        false,
    );
    let all: bool = match game.player_by_small_id(small_id) {
        Some(p) => p.tiles_owned >= 0 && p.tiles_owned as u64 == land.len() as u64,
        None => false,
    };
    if all {
        game.conquer_player(captor, small_id);
    }
    game.take_tiles(captor, &land);
    proof {
        lemma_taking(game_now@, captor, land@);
        lemma_taking(game_now@.plundering(captor, small_id), captor, land@);
    }
}

proof fn lemma_taking(game: GameView, sid: u16, tiles: Seq<TileRef>)
    requires
        forall|i: int| 0 <= i < tiles.len() ==> game.map.valid(#[trigger] tiles[i]),
    ensures
        game.taking(sid, tiles).map.tiles.len() == game.map.tiles.len(),
    decreases tiles.len(),
{
    if tiles.len() > 0 {
        assert forall|i: int| 0 <= i < tiles.drop_last().len() implies game.map.valid(
            #[trigger] tiles.drop_last()[i],
        ) by {
            assert(tiles.drop_last()[i] == tiles[i]);
        }
        lemma_taking(game, sid, tiles.drop_last());
        assert(game.map.valid(tiles[tiles.len() - 1]));
    }
}

/// The first of the largest of some clusters.
fn largest_of(clusters: &Vec<Vec<TileRef>>) -> (at: usize)
    requires
        clusters@.len() > 0,
    ensures
        at == largest_cluster(cluster_views(clusters@)),
        at < clusters@.len(),
{
    let ghost all = cluster_views(clusters@);
    let mut at: usize = 0;
    assert(largest_cluster(all.take(1)) == 0);
    for i in 1..clusters.len()
        invariant
            all == cluster_views(clusters@),
            clusters@.len() > 0,
            at < i,
            at == largest_cluster(all.take(i as int)),
    {
        assert(all.take(i + 1).drop_last() =~= all.take(i as int));
        assert(all.take(i as int)[at as int] == clusters@[at as int]@);
        assert(all.take(i + 1)[at as int] == clusters@[at as int]@);
        assert(all.take(i + 1).last() == clusters@[i as int]@);
        if clusters[i].len() > clusters[at].len() {
            at = i;
        }
    }
    proof {
        crate::lists::lemma_take_all(all);
    }
    at
}

/// Lets a player lose its surrounded clusters.
fn remove_surrounded(game: &mut Game, small_id: u16)
    requires
        old(game).wf(),
    ensures
        final(game).wf(),
        final(game)@ == old(game)@.annexing_clusters(small_id),
{
    let clusters = calculate_clusters(game, small_id);
    if clusters.len() == 0 {
        return;
    }
    let ghost all = cluster_views(clusters@);
    let ghost n = game@.map.tiles.len();
    let main: usize = largest_of(&clusters);
    assert(all[main as int] == clusters@[main as int]@);
    if surrounded_by_same_enemy(game, small_id, &clusters[main]).is_some() {
        remove_cluster(game, small_id, &clusters[main]);
    }
    let ghost first = game@;
    for i in 0..clusters.len()
        invariant
            game.wf(),
            all == cluster_views(clusters@),
            game@.map.tiles.len() == n,
            forall|a: int, b: int|
                0 <= a < clusters@.len() && 0 <= b < clusters@[a]@.len() ==> (#[trigger]
                clusters@[a]@[b]) < n,
            game@ == first.annexing_minor(small_id, all, main as int, i as nat),
    {
        assert(all[i as int] == clusters@[i as int]@);
        if i != main && is_surrounded(game, small_id, &clusters[i]) {
            remove_cluster(game, small_id, &clusters[i]);
        }
    }
}

/// Lets a player lose its surrounded clusters, now and then.
pub fn maybe_remove_clusters(game: &mut Game, small_id: u16, tick: u32)
    requires
        old(game).wf(),
    ensures
        final(game).wf(),
        final(game)@ == old(game)@.pruning(small_id, tick),
{
    if !game.is_player_alive(small_id) {
        return;
    }
    let tiles_owned: i64 = game.tiles_of(small_id);
    if tiles_owned == 0 {
        return;
    }
    let ghost before = game@;
    let mut seen: u32 = game.players[small_id as usize - 1].last_cluster_calc;
    let changed: u32 = game.players[small_id as usize - 1].last_tile_change;
    if seen == 0 {
        let hash: i32 = crate::util::simple_hash(&game.players[small_id as usize - 1].name);
        seen = tick_later(tick, hash as u32 % TICKS_PER_CLUSTER_CALC);
        game.note_clusters(small_id, seen);
    }
    assert(seen == before.clusters_seen(small_id, tick));
    if tick as i64 - seen as i64 <= TICKS_PER_CLUSTER_CALC as i64 && tiles_owned
        >= LARGE_PLAYER_TILES {
        return;
    }
    if changed < seen {
        return;
    }
    game.note_clusters(small_id, tick);
    remove_surrounded(game, small_id);
}

} // verus!
