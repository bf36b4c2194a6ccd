//! What holds of surrounded land: who surrounds it, who captures it, and what is lost.

use vstd::prelude::*;

use crate::ai_attack::flatten_neighbors;
use crate::game::GameView;
use crate::map::MapView;
use crate::ordered_tiles::TileRef;
use crate::player_clusters::{claim_at, deepened, largest_cluster, top_claim, with_claim};
use crate::state::LandAttackView;

verus! {

/// Tiles of a player.
pub open spec fn tiles_of_player(map: MapView, id: u16) -> spec_fn(TileRef) -> bool {
    |t: TileRef| map.owner(t) == id
}

/// How often a player's tiles are met when the neighbors of each tile of a cluster are gone
/// through.
pub open spec fn border_length(map: MapView, cluster: Seq<TileRef>, id: u16) -> nat {
    flatten_neighbors(map, cluster).filter(tiles_of_player(map, id)).len()
}

/// Whether a player is an enemy of `sid` that owns a tile next to a cluster.
pub open spec fn is_besieger(game: GameView, sid: u16, cluster: Seq<TileRef>, id: u16) -> bool {
    id != 0 && id != sid && !game.is_friendly(id, sid) && border_length(game.map, cluster, id) > 0
}

/// Whether an attack is one of a besieger on the player.
pub open spec fn is_siege(game: GameView, sid: u16, cluster: Seq<TileRef>, a: LandAttackView) -> bool {
    a.target == sid && is_besieger(game, sid, cluster, a.attacker)
}

/// Who captures a cluster is an enemy that owns a tile next to it, and somebody does unless
/// there is no such enemy. Where one of them attacks the player, it is one with the largest
/// attack; where none does, it is one that no other has a longer border with the cluster
/// than.
pub proof fn law_captor(game: GameView, sid: u16, cluster: Seq<TileRef>)
    requires
        flatten_neighbors(game.map, cluster).len() <= u32::MAX,
    ensures
        match game.captor(sid, cluster) {
            Some(c) => {
                &&& is_besieger(game, sid, cluster, c)
                &&& (exists|i: int|
                    0 <= i < game.attacks.len() && is_siege(
                        game,
                        sid,
                        cluster,
                        #[trigger] game.attacks[i],
                    ) && game.attacks[i].troops > 0) ==> exists|k: int|
                    0 <= k < game.attacks.len() && (#[trigger] game.attacks[k]).attacker == c
                        && is_siege(game, sid, cluster, game.attacks[k]) && forall|i: int|
                        0 <= i < game.attacks.len() && is_siege(
                            game,
                            sid,
                            cluster,
                            #[trigger] game.attacks[i],
                        ) ==> game.attacks[i].troops <= game.attacks[k].troops
                &&& (forall|i: int|
                    0 <= i < game.attacks.len() && is_siege(
                        game,
                        sid,
                        cluster,
                        #[trigger] game.attacks[i],
                    ) ==> game.attacks[i].troops <= 0) ==> forall|id: u16|
                    #[trigger] is_besieger(game, sid, cluster, id) ==> border_length(
                        game.map,
                        cluster,
                        id,
                    ) <= border_length(game.map, cluster, c)
            },
            None => forall|id: u16| !(#[trigger] is_besieger(game, sid, cluster, id)),
        },
{
    let near = flatten_neighbors(game.map, cluster);
    let claims = game.claims(sid, near);
    lemma_claims(game, sid, near);
    lemma_main_claimant(game, sid, claims);
    lemma_top_claim(claims);
    let (main, most) = game.main_claimant(sid, claims);
    assert forall|id: u16| #[trigger] is_besieger(game, sid, cluster, id) == has_claim(
        claims,
        id,
    ) by {}
    assert forall|a: LandAttackView| #[trigger] is_siege(game, sid, cluster, a) == (a.target == sid
        && has_claim(claims, a.attacker)) by {
        assert(is_besieger(game, sid, cluster, a.attacker) == has_claim(claims, a.attacker));
    }
    match main {
        Some(c) => {
            assert(is_besieger(game, sid, cluster, c) == has_claim(claims, c));
            let k = choose|k: int|
                0 <= k < game.attacks.len() && (#[trigger] game.attacks[k]).attacker == c
                    && game.attacks[k].target == sid && game.attacks[k].troops == most;
            assert(is_siege(game, sid, cluster, game.attacks[k]));
            assert forall|i: int| 0 <= i < game.attacks.len() && is_siege(
                game,
                sid,
                cluster,
                #[trigger] game.attacks[i],
            ) implies game.attacks[i].troops <= game.attacks[k].troops by {}
        },
        None => {
            match top_claim(claims) {
                Some(best) => {
                    let k = choose|k: int| 0 <= k < claims.len() && claims[k] == best;
                    assert(claims[k].0 == best.0);
                    assert(has_claim(claims, best.0));
                    assert(is_besieger(game, sid, cluster, best.0));
                    assert forall|id: u16| #[trigger] is_besieger(
                        game,
                        sid,
                        cluster,
                        id,
                    ) implies border_length(game.map, cluster, id) <= border_length(
                        game.map,
                        cluster,
                        best.0,
                    ) by {
                        assert(has_claim(claims, id));
                        let i = choose|i: int|
                            0 <= i < claims.len() && (#[trigger] claims[i]).0 == id;
                        assert(claims[i].1 <= best.1);
                    }
                },
                None => {
                    assert forall|id: u16| !(#[trigger] is_besieger(game, sid, cluster, id)) by {
                        if has_claim(claims, id) {
                            let i = choose|i: int|
                                0 <= i < claims.len() && (#[trigger] claims[i]).0 == id;
                        }
                    }
                },
            }
        },
    }
}

/// Whether a list of counts has one for a player.
pub open spec fn has_claim(claims: Seq<(u16, u32)>, id: u16) -> bool {
    exists|i: int| 0 <= i < claims.len() && (#[trigger] claims[i]).0 == id
}

proof fn lemma_claim_at(claims: Seq<(u16, u32)>, id: u16)
    ensures
        0 <= claim_at(claims, id) <= claims.len(),
        claim_at(claims, id) < claims.len() ==> claims[claim_at(claims, id)].0 == id,
        claim_at(claims, id) < claims.len() <==> has_claim(claims, id),
    decreases claims.len(),
{
    if claims.len() > 0 {
        let rest = claims.skip(1);
        lemma_claim_at(rest, id);
        if claims[0].0 != id {
            let at = claim_at(rest, id);
            if at < rest.len() {
                assert(rest[at] == claims[at + 1]);
            }
            if has_claim(claims, id) {
                let i = choose|i: int| 0 <= i < claims.len() && (#[trigger] claims[i]).0 == id;
                assert(rest[i - 1].0 == id);
            }
        }
    }
}

proof fn lemma_claims(game: GameView, sid: u16, tiles: Seq<TileRef>)
    requires
        tiles.len() <= u32::MAX,
    ensures
        ({
            let claims = game.claims(sid, tiles);
            &&& forall|i: int|
                0 <= i < claims.len() ==> (#[trigger] claims[i]).1 == tiles.filter(
                    tiles_of_player(game.map, claims[i].0),
                ).len()
            &&& forall|id: u16| #[trigger]
                has_claim(claims, id) == (id != 0 && id != sid && !game.is_friendly(id, sid)
                    && tiles.filter(tiles_of_player(game.map, id)).len() > 0)
            &&& forall|i: int, j: int|
                0 <= i < j < claims.len() ==> (#[trigger] claims[i]).0 != (#[trigger] claims[j]).0
        }),
    decreases tiles.len(),
{
    reveal(Seq::filter);
    let claims = game.claims(sid, tiles);
    if tiles.len() > 0 {
        let front = tiles.drop_last();
        let owner = game.map.owner(tiles.last());
        let before = game.claims(sid, front);
        lemma_claims(game, sid, front);
        lemma_claim_at(before, owner);
        let at = claim_at(before, owner);
        assert forall|id: u16| #[trigger] tiles.filter(tiles_of_player(game.map, id)).len()
            == front.filter(tiles_of_player(game.map, id)).len() + (if id == owner {
            1int
        } else {
            0
        }) by {}
        crate::lists::lemma_filter_len(front, tiles_of_player(game.map, owner));
        if owner == 0 || owner == sid || game.is_friendly(owner, sid) {
            assert(claims == before);
            assert forall|i: int| 0 <= i < claims.len() implies (#[trigger] claims[i]).1
                == tiles.filter(tiles_of_player(game.map, claims[i].0)).len() by {
                assert(has_claim(before, before[i].0));
            }
            assert forall|id: u16| #[trigger] has_claim(claims, id) == (id != 0 && id != sid
                && !game.is_friendly(id, sid) && tiles.filter(
                tiles_of_player(game.map, id),
            ).len() > 0) by {
                assert(has_claim(before, id) == has_claim(claims, id));
            }
        } else {
            assert(claims == with_claim(before, owner));
            assert forall|i: int| 0 <= i < claims.len() implies (#[trigger] claims[i]).1
                == tiles.filter(tiles_of_player(game.map, claims[i].0)).len() by {
                if at < before.len() {
                    if i != at {
                        assert(claims[i] == before[i]);
                        if before[i].0 == owner {
                            assert(before[at].0 != before[i].0);
                        }
                    } else {
                        assert(before[at].1 == front.filter(
                            tiles_of_player(game.map, owner),
                        ).len());
                    }
                } else if i < before.len() {
                    assert(claims[i] == before[i]);
                    assert(has_claim(before, before[i].0));
                } else {
                    assert(!has_claim(before, owner));
                    assert(front.filter(tiles_of_player(game.map, owner)).len() == 0);
                }
            }
            assert forall|id: u16| #[trigger] has_claim(claims, id) == (id != 0 && id != sid
                && !game.is_friendly(id, sid) && tiles.filter(
                tiles_of_player(game.map, id),
            ).len() > 0) by {
                assert(has_claim(before, id) == (id != 0 && id != sid && !game.is_friendly(id, sid)
                    && front.filter(tiles_of_player(game.map, id)).len() > 0));
                if has_claim(before, id) {
                    let i = choose|i: int| 0 <= i < before.len() && (#[trigger] before[i]).0 == id;
                    assert(claims[i].0 == id);
                }
                if id == owner {
                    if at < before.len() {
                        assert(claims[at].0 == id);
                    } else {
                        assert(claims[before.len() as int].0 == id);
                    }
                }
                if has_claim(claims, id) && id != owner {
                    let i = choose|i: int| 0 <= i < claims.len() && (#[trigger] claims[i]).0 == id;
                    assert(before[i].0 == id);
                }
            }
            assert forall|i: int, j: int| 0 <= i < j < claims.len() implies (
            #[trigger] claims[i]).0 != (#[trigger] claims[j]).0 by {
                if j < before.len() {
                    assert(before[i].0 != before[j].0);
                } else {
                    assert(has_claim(before, before[i].0));
                }
            }
        }
    } else {
        assert(tiles.filter(tiles_of_player(game.map, 0)) =~= Seq::empty());
        assert forall|id: u16| #[trigger] has_claim(claims, id) == (id != 0 && id != sid
            && !game.is_friendly(id, sid) && tiles.filter(tiles_of_player(game.map, id)).len()
            > 0) by {
            assert(tiles.filter(tiles_of_player(game.map, id)) =~= Seq::empty());
        }
    }
}

proof fn lemma_top_claim(claims: Seq<(u16, u32)>)
    ensures
        claims.len() == 0 <==> top_claim(claims) is None,
        top_claim(claims) is Some ==> claims.contains(top_claim(claims)->0) && forall|i: int|
            0 <= i < claims.len() ==> (#[trigger] claims[i]).1 <= (top_claim(claims)->0).1,
    decreases claims.len(),
{
    if claims.len() > 0 {
        let front = claims.drop_last();
        lemma_top_claim(front);
        assert(claims[claims.len() - 1] == claims.last());
        if let Some(best) = top_claim(front) {
            let k = choose|k: int| 0 <= k < front.len() && front[k] == best;
            assert(claims[k] == best);
            assert forall|i: int| 0 <= i < claims.len() implies (#[trigger] claims[i]).1 <= (
            top_claim(claims)->0).1 by {
                if i < front.len() {
                    assert(front[i] == claims[i]);
                }
            }
        }
    }
}

proof fn lemma_strongest_attack(
    game: GameView,
    sid: u16,
    by: u16,
    attacks: Seq<LandAttackView>,
    best: (Option<u16>, int),
)
    ensures
        ({
            let after = game.strongest_attack(sid, by, attacks, best);
            &&& after.1 >= best.1
            &&& forall|i: int|
                0 <= i < attacks.len() && (#[trigger] attacks[i]).attacker == by
                    && attacks[i].target == sid ==> attacks[i].troops <= after.1
            &&& after == best || (after.1 > best.1 && after.0 == Some(by) && exists|k: int|
                0 <= k < attacks.len() && (#[trigger] attacks[k]).attacker == by
                    && attacks[k].target == sid && attacks[k].troops == after.1)
        }),
    decreases attacks.len(),
{
    if attacks.len() > 0 {
        let front = attacks.drop_last();
        let before = game.strongest_attack(sid, by, front, best);
        let after = game.strongest_attack(sid, by, attacks, best);
        lemma_strongest_attack(game, sid, by, front, best);
        let n = attacks.len() - 1;
        assert(attacks[n] == attacks.last());
        assert forall|i: int| 0 <= i < attacks.len() && (#[trigger] attacks[i]).attacker == by
            && attacks[i].target == sid implies attacks[i].troops <= after.1 by {
            if i < n {
                assert(front[i] == attacks[i]);
            }
        }
        if after == before && before != best {
            let k = choose|k: int|
                0 <= k < front.len() && (#[trigger] front[k]).attacker == by && front[k].target
                    == sid && front[k].troops == before.1;
            assert(attacks[k] == front[k]);
        }
    }
}

proof fn lemma_main_claimant(game: GameView, sid: u16, claims: Seq<(u16, u32)>)
    ensures
        ({
            let (main, most) = game.main_claimant(sid, claims);
            &&& most >= 0
            &&& main is None ==> most == 0
            &&& main is Some ==> most > 0 && has_claim(claims, main->0) && exists|k: int|
                0 <= k < game.attacks.len() && (#[trigger] game.attacks[k]).attacker == main->0
                    && game.attacks[k].target == sid && game.attacks[k].troops == most
            &&& forall|i: int|
                0 <= i < game.attacks.len() && (#[trigger] game.attacks[i]).target == sid
                    && has_claim(claims, game.attacks[i].attacker) ==> game.attacks[i].troops
                    <= most
        }),
    decreases claims.len(),
{
    if claims.len() > 0 {
        let front = claims.drop_last();
        let by = claims.last().0;
        let before = game.main_claimant(sid, front);
        let after = game.main_claimant(sid, claims);
        lemma_main_claimant(game, sid, front);
        lemma_strongest_attack(game, sid, by, game.attacks, before);
        assert(claims[claims.len() - 1].0 == by);
        if after == before && before.0 is Some {
            let i = choose|i: int| 0 <= i < front.len() && (#[trigger] front[i]).0 == before.0->0;
            assert(claims[i].0 == before.0->0);
        }
        assert forall|i: int| 0 <= i < game.attacks.len() && (#[trigger] game.attacks[i]).target
            == sid && has_claim(claims, game.attacks[i].attacker) implies game.attacks[i].troops
            <= after.1 by {
            let id = game.attacks[i].attacker;
            let k = choose|k: int| 0 <= k < claims.len() && (#[trigger] claims[k]).0 == id;
            if k < front.len() {
                assert(front[k].0 == id);
            }
        }
    }
}

/// The main cluster is one that no other has more tiles than, the first of such.
pub proof fn law_main_cluster(clusters: Seq<Seq<TileRef>>)
    requires
        clusters.len() > 0,
    ensures
        0 <= largest_cluster(clusters) < clusters.len(),
        forall|i: int|
            0 <= i < clusters.len() ==> (#[trigger] clusters[i]).len() <= clusters[largest_cluster(
                clusters,
            )].len(),
        forall|i: int|
            0 <= i < largest_cluster(clusters) ==> (#[trigger] clusters[i]).len()
                < clusters[largest_cluster(clusters)].len(),
    decreases clusters.len(),
{
    if clusters.len() > 1 {
        let front = clusters.drop_last();
        law_main_cluster(front);
        let at = largest_cluster(front);
        assert(front[at] == clusters[at]);
        assert forall|i: int| 0 <= i < clusters.len() implies (#[trigger] clusters[i]).len()
            <= clusters[largest_cluster(clusters)].len() by {
            if i < front.len() {
                assert(front[i] == clusters[i]);
            }
        }
        assert forall|i: int| 0 <= i < largest_cluster(clusters) implies (
        #[trigger] clusters[i]).len() < clusters[largest_cluster(clusters)].len() by {
            assert(front[i] == clusters[i]);
        }
    }
}

impl MapView {
    /// Whether the tile at `i` on a way is around the one before it.
    pub open spec fn hooked(self, way: Seq<TileRef>, i: int, eight: bool) -> bool {
        self.around_tile(way[i - 1], eight).contains(way[i])
    }

    /// Whether a way leads from `t` to `x` over tiles that are as `p` says, also over their
    /// corners where `eight`.
    pub open spec fn connects(
        self,
        way: Seq<TileRef>,
        t: TileRef,
        x: TileRef,
        p: spec_fn(TileRef) -> bool,
        eight: bool,
    ) -> bool {
        &&& way.len() > 0
        &&& way[0] == t
        &&& way.last() == x
        &&& forall|i: int| 0 <= i < way.len() ==> p(#[trigger] way[i])
        &&& forall|i: int| 0 < i < way.len() ==> #[trigger] self.hooked(way, i, eight)
    }

    /// Whether some way leads from `t` to `x` over tiles that are as `p` says.
    pub open spec fn connected(
        self,
        t: TileRef,
        x: TileRef,
        p: spec_fn(TileRef) -> bool,
        eight: bool,
    ) -> bool {
        exists|way: Seq<TileRef>| self.connects(way, t, x, p, eight)
    }

    proof fn lemma_connected_on(
        self,
        t: TileRef,
        x: TileRef,
        n: TileRef,
        p: spec_fn(TileRef) -> bool,
        eight: bool,
    )
        requires
            self.connected(t, x, p, eight),
            self.around_tile(x, eight).contains(n),
            p(n),
        ensures
            self.connected(t, n, p, eight),
    {
        let way = choose|way: Seq<TileRef>| self.connects(way, t, x, p, eight);
        let longer = way.push(n);
        assert forall|i: int| 0 < i < longer.len() implies #[trigger] self.hooked(
            longer,
            i,
            eight,
        ) by {
            if i < way.len() {
                assert(self.hooked(way, i, eight));
            }
        }
        assert(self.connects(longer, t, n, p, eight));
    }

    spec fn fulfilled(
        self,
        held: Seq<TileRef>,
        stack: Seq<TileRef>,
        h: TileRef,
        p: spec_fn(TileRef) -> bool,
        eight: bool,
    ) -> bool {
        forall|n: TileRef| #[trigger]
            self.around_tile(h, eight).contains(n) && p(n) ==> held.contains(n) || stack.contains(n)
    }

    proof fn lemma_around_valid(self, t: TileRef, eight: bool)
        requires
            self.wf(),
            self.valid(t),
        ensures
            forall|i: int|
                0 <= i < self.around_tile(t, eight).len() ==> self.valid(
                    #[trigger] self.around_tile(t, eight)[i],
                ),
    {
        self.lemma_neighbors4(t);
        self.lemma_neighbors8(t);
    }

    proof fn lemma_deepened(
        self,
        t: TileRef,
        stack: Seq<TileRef>,
        held: Seq<TileRef>,
        p: spec_fn(TileRef) -> bool,
        eight: bool,
    )
        requires
            self.wf(),
            held.no_duplicates(),
            forall|i: int| 0 <= i < held.len() ==> self.valid(#[trigger] held[i]),
            forall|i: int| 0 <= i < stack.len() ==> self.valid(#[trigger] stack[i]),
            forall|x: TileRef| #[trigger] held.contains(x) ==> self.connected(t, x, p, eight),
            forall|x: TileRef| #[trigger]
                stack.contains(x) && p(x) ==> self.connected(t, x, p, eight),
            forall|h: TileRef| #[trigger] held.contains(h) ==> self.fulfilled(held, stack, h, p, eight),
            p(t) ==> held.contains(t) || stack.contains(t),
        ensures
            ({
                let all = deepened(self, stack, held, p, eight);
                &&& all.no_duplicates()
                &&& forall|x: TileRef| #[trigger] all.contains(x) ==> self.connected(t, x, p, eight)
                    && self.valid(x)
                &&& forall|h: TileRef, n: TileRef|
                    all.contains(h) && #[trigger] self.around_tile(h, eight).contains(n) && p(n)
                        && self.valid(n) ==> all.contains(n)
                &&& p(t) && self.valid(t) ==> all.contains(t)
            }),
        decreases self.tiles.len() - held.len(), stack.len(),
    {
        crate::lists::lemma_distinct_below(held, self.tiles.len());
        let all = deepened(self, stack, held, p, eight);
        if stack.len() == 0 {
            assert forall|h: TileRef, n: TileRef|
                held.contains(h) && #[trigger] self.around_tile(h, eight).contains(n) && p(
                    n,
                ) implies held.contains(n) by {
                assert(self.fulfilled(held, stack, h, p, eight));
            }
        } else if held.len() >= self.tiles.len() {
            assert forall|n: TileRef| #[trigger] self.valid(n) implies held.contains(n) by {
                if !held.contains(n) {
                    let more = held.push(n);
                    assert(more.no_duplicates()) by {
                        assert forall|i: int, j: int| 0 <= i < more.len() && 0 <= j < more.len()
                            && i != j implies more[i] != more[j] by {
                            if i < held.len() {
                                assert(held.contains(held[i]));
                            }
                            if j < held.len() {
                                assert(held.contains(held[j]));
                            }
                        }
                    }
                    crate::lists::lemma_distinct_below(more, self.tiles.len());
                }
            }
        } else {
            let x = stack.last();
            let rest = stack.drop_last();
            assert(stack[stack.len() - 1] == x && stack.contains(x));
            assert forall|y: TileRef| #[trigger] rest.contains(y) implies stack.contains(y) by {
                let i = choose|i: int| 0 <= i < rest.len() && rest[i] == y;
                assert(stack[i] == y);
            }
            assert forall|y: TileRef| #[trigger] stack.contains(y) && y != x implies rest.contains(
                y,
            ) by {
                let i = choose|i: int| 0 <= i < stack.len() && stack[i] == y;
                assert(rest[i] == y);
            }
            if held.contains(x) || !p(x) {
                assert forall|h: TileRef| #[trigger] held.contains(h) implies self.fulfilled(
                    held,
                    rest,
                    h,
                    p,
                    eight,
                ) by {
                    assert(self.fulfilled(held, stack, h, p, eight));
                }
                self.lemma_deepened(t, rest, held, p, eight);
            } else {
                let around = self.around_tile(x, eight);
                let next = rest + around;
                let more = held.push(x);
                self.lemma_around_valid(x, eight);
                assert(more[held.len() as int] == x && more.contains(x));
                assert forall|y: TileRef| #[trigger] held.contains(y) implies more.contains(y) by {
                    let i = choose|i: int| 0 <= i < held.len() && held[i] == y;
                    assert(more[i] == y);
                }
                assert forall|y: TileRef| #[trigger] more.contains(y) implies y == x
                    || held.contains(y) by {
                    let i = choose|i: int| 0 <= i < more.len() && more[i] == y;
                    if i < held.len() {
                        assert(held[i] == y);
                    }
                }
                assert forall|y: TileRef|
                    rest.contains(y) || around.contains(y) implies #[trigger] next.contains(y) by {
                    if rest.contains(y) {
                        let i = choose|i: int| 0 <= i < rest.len() && rest[i] == y;
                        assert(next[i] == y);
                    } else {
                        let i = choose|i: int| 0 <= i < around.len() && around[i] == y;
                        assert(next[rest.len() + i] == y);
                    }
                }
                assert forall|y: TileRef| #[trigger] next.contains(y) implies rest.contains(y)
                    || around.contains(y) by {
                    let i = choose|i: int| 0 <= i < next.len() && next[i] == y;
                    if i < rest.len() {
                        assert(rest[i] == y);
                    } else {
                        assert(around[i - rest.len()] == y);
                    }
                }
                assert(more.no_duplicates()) by {
                    assert forall|i: int, j: int| 0 <= i < more.len() && 0 <= j < more.len() && i
                        != j implies more[i] != more[j] by {
                        if i < held.len() {
                            assert(held.contains(held[i]));
                        }
                        if j < held.len() {
                            assert(held.contains(held[j]));
                        }
                    }
                }
                assert(self.connected(t, x, p, eight));
                assert forall|y: TileRef| #[trigger] next.contains(y) && p(
                    y,
                ) implies self.connected(t, y, p, eight) by {
                    if around.contains(y) {
                        self.lemma_connected_on(t, x, y, p, eight);
                    }
                }
                assert forall|h: TileRef| #[trigger] more.contains(h) implies self.fulfilled(
                    more,
                    next,
                    h,
                    p,
                    eight,
                ) by {
                    if h != x {
                        assert(self.fulfilled(held, stack, h, p, eight));
                    }
                    assert forall|n: TileRef| #[trigger]
                        self.around_tile(h, eight).contains(n) && p(n) implies more.contains(n)
                        || next.contains(n) by {
                        if h == x {
                            assert(around.contains(n));
                        } else {
                            assert(held.contains(n) || stack.contains(n));
                        }
                    }
                }
                assert forall|i: int| 0 <= i < next.len() implies self.valid(
                    #[trigger] next[i],
                ) by {
                    if i < rest.len() {
                        assert(stack[i] == next[i]);
                    } else {
                        assert(self.valid(around[i - rest.len()]));
                    }
                }
                self.lemma_deepened(t, next, more, p, eight);
            }
        }
        assert forall|x: TileRef| #[trigger] all.contains(x) implies self.valid(x) by {
            if stack.len() == 0 || held.len() >= self.tiles.len() {
                let i = choose|i: int| 0 <= i < held.len() && held[i] == x;
                assert(self.valid(held[i]));
            }
        }
    }

    /// A search from a tile comes to exactly the tiles to which a way leads, and to each
    /// once.
    pub proof fn law_search(self, t: TileRef, p: spec_fn(TileRef) -> bool, eight: bool)
        requires
            self.wf(),
            self.valid(t),
        ensures
            self.deep(t, p, eight).no_duplicates(),
            forall|x: TileRef| #[trigger]
                self.deep(t, p, eight).contains(x) == self.connected(t, x, p, eight),
    {
        let all = self.deep(t, p, eight);
        let start = seq![t];
        assert(start[0] == t && start.contains(t));
        assert forall|x: TileRef| #[trigger] start.contains(x) && p(x) implies self.connected(
            t,
            x,
            p,
            eight,
        ) by {
            assert(self.connects(seq![t], t, t, p, eight));
        }
        self.lemma_deepened(t, start, Seq::empty(), p, eight);
        assert forall|x: TileRef| self.connected(t, x, p, eight) implies #[trigger] all.contains(
            x,
        ) by {
            let way = choose|way: Seq<TileRef>| self.connects(way, t, x, p, eight);
            self.lemma_along(all, way, t, x, p, eight, way.len() - 1);
        }
    }

    proof fn lemma_along(
        self,
        all: Seq<TileRef>,
        way: Seq<TileRef>,
        t: TileRef,
        x: TileRef,
        p: spec_fn(TileRef) -> bool,
        eight: bool,
        i: int,
    )
        requires
            self.wf(),
            self.valid(t),
            p(t) ==> all.contains(t),
            forall|h: TileRef| #[trigger] all.contains(h) ==> self.valid(h),
            forall|h: TileRef, n: TileRef|
                all.contains(h) && #[trigger] self.around_tile(h, eight).contains(n) && p(n)
                    && self.valid(n) ==> all.contains(n),
            self.connects(way, t, x, p, eight),
            0 <= i < way.len(),
        ensures
            all.contains(way[i]),
        decreases i,
    {
        assert(p(way[i]));
        if i > 0 {
            self.lemma_along(all, way, t, x, p, eight, i - 1);
            assert(self.hooked(way, i, eight));
            let h = way[i - 1];
            self.lemma_around_valid(h, eight);
            let around = self.around_tile(h, eight);
            let k = choose|k: int| 0 <= k < around.len() && around[k] == way[i];
            assert(self.valid(around[k]));
        }
    }
}

/// With a cluster a player loses exactly the land of its own that is joined to it, and its
/// captor gets it; nobody else's land changes hands.
pub proof fn law_annexed_land(game: GameView, sid: u16, cluster: Seq<TileRef>, t: TileRef)
    requires
        game.map.wf(),
        cluster.len() > 0,
        game.map.valid(cluster[0]),
        game.map.valid(t),
        forall|i: int| 0 <= i < cluster.len() ==> game.map.owner(#[trigger] cluster[i]) == sid,
    ensures
        ({
            let after = game.annexing(sid, cluster).map;
            &&& game.captor(sid, cluster) is None ==> game.annexing(sid, cluster) == game
            &&& game.captor(sid, cluster) is Some ==> after.owner(t) == (if game.map.connected(
                cluster[0],
                t,
                game.map.owned_by(sid),
                false,
            ) {
                game.captor(sid, cluster)->0
            } else {
                game.map.owner(t)
            })
        }),
{
    let p = game.map.owned_by(sid);
    let land = game.map.deep(cluster[0], p, false);
    game.map.law_search(cluster[0], p, false);
    if let Some(captor) = game.captor(sid, cluster) {
        let taken = if game.has(sid) && game.player(sid).tiles_owned == land.len() {
            game.plundering(captor, sid)
        } else {
            game
        };
        assert(taken.map == game.map);
        assert forall|i: int| 0 <= i < land.len() implies game.map.valid(#[trigger] land[i]) by {
            assert(land.contains(land[i]));
            let x = land[i];
            let way = choose|way: Seq<TileRef>| game.map.connects(way, cluster[0], x, p, false);
            lemma_way_valid(game.map, way, cluster[0], x, p, way.len() - 1);
        }
        lemma_taking(taken, captor, land, t);
    }
}

proof fn lemma_way_valid(
    map: MapView,
    way: Seq<TileRef>,
    t: TileRef,
    x: TileRef,
    p: spec_fn(TileRef) -> bool,
    i: int,
)
    requires
        map.wf(),
        map.valid(t),
        map.connects(way, t, x, p, false),
        0 <= i < way.len(),
    ensures
        map.valid(way[i]),
    decreases i,
{
    if i > 0 {
        lemma_way_valid(map, way, t, x, p, i - 1);
        assert(map.hooked(way, i, false));
        map.lemma_neighbors4(way[i - 1]);
        let near = map.neighbors4(way[i - 1]);
        let k = choose|k: int| 0 <= k < near.len() && near[k] == way[i];
        assert(map.valid(near[k]));
    }
}

proof fn lemma_taking(game: GameView, sid: u16, tiles: Seq<TileRef>, t: TileRef)
    requires
        game.map.valid(t),
        forall|i: int| 0 <= i < tiles.len() ==> game.map.valid(#[trigger] tiles[i]),
    ensures
        game.taking(sid, tiles).map.tiles.len() == game.map.tiles.len(),
        game.taking(sid, tiles).map.owner(t) == (if tiles.contains(t) {
            sid
        } else {
            game.map.owner(t)
        }),
    decreases tiles.len(),
{
    if tiles.len() > 0 {
        let front = tiles.drop_last();
        assert forall|i: int| 0 <= i < front.len() implies game.map.valid(#[trigger] front[i]) by {
            assert(tiles[i] == front[i]);
        }
        lemma_taking(game, sid, front, t);
        assert(tiles[tiles.len() - 1] == tiles.last());
        if front.contains(t) {
            let i = choose|i: int| 0 <= i < front.len() && front[i] == t;
            assert(tiles[i] == t);
        }
        if tiles.contains(t) && tiles.last() != t {
            let i = choose|i: int| 0 <= i < tiles.len() && tiles[i] == t;
            assert(front[i] == t);
        }
    }
}

/// An enemy surrounds a cluster exactly where it is no friend, all tiles next to the cluster
/// are its own or the player's, none of the cluster lies at the ocean or at the edge of the
/// map, the first tile of the cluster touches it, and the box around its tiles there holds
/// the cluster.
pub proof fn law_encircler(game: GameView, sid: u16, cluster: Seq<TileRef>, enemy: u16)
    requires
        cluster.len() > 0,
        enemy != sid,
        enemy != 0,
        sid != 0,
    ensures
        ({
            let near = flatten_neighbors(game.map, cluster);
            game.encircler(sid, cluster) == Some(enemy) <==> {
                &&& !game.is_friendly(enemy, sid)
                &&& forall|t: TileRef| #[trigger]
                    near.contains(t) ==> game.map.owner(t) == enemy || game.map.owner(t) == sid
                &&& forall|t: TileRef| #[trigger]
                    cluster.contains(t) ==> !game.map.is_ocean_shore(t) && !game.map.on_edge(t)
                &&& exists|t: TileRef| #[trigger]
                    game.map.neighbors4(cluster[0]).contains(t) && game.map.owner(t) == enemy
                &&& game.map.boxed(near.filter(game.map.foreign(sid)), cluster)
            }
        }),
{
    let map = game.map;
    let near = flatten_neighbors(map, cluster);
    let rim = near.filter(map.foreign(sid));
    let first = map.neighbors4(cluster[0]);
    crate::lists::lemma_filter_members(near, map.foreign(sid));
    assert forall|t: TileRef| #[trigger] first.contains(t) implies near.contains(t) by {
        assert(cluster.contains(cluster[0]));
        crate::shared_water::lemma_flattened(map, cluster, t);
    }
    lemma_some(cluster, map.open_to_sea());
    lemma_some(near, map.unowned());
    lemma_some(first, map.foreign(sid));
    if rim.len() > 0 {
        let e = map.owner(rim[0]);
        assert(rim.contains(rim[0]));
        lemma_some(near, map.third_party(sid, e));
    }
    if crate::lists::some_where(first, map.foreign(sid)) {
        let t = choose|t: TileRef| first.contains(t) && map.foreign(sid)(t);
        assert(rim.contains(t));
    }
}

proof fn lemma_some(s: Seq<TileRef>, p: spec_fn(TileRef) -> bool)
    ensures
        crate::lists::some_where(s, p) == (exists|t: TileRef| s.contains(t) && p(t)),
{
    if crate::lists::some_where(s, p) {
        let i = choose|i: int| 0 <= i < s.len() && p(#[trigger] s[i]);
        assert(s.contains(s[i]) && p(s[i]));
    }
    if exists|t: TileRef| s.contains(t) && p(t) {
        let t = choose|t: TileRef| s.contains(t) && p(t);
        let i = choose|i: int| 0 <= i < s.len() && s[i] == t;
        assert(p(s[i]));
    }
}

/// The box around tiles holds that of others exactly where each of the others lies between
/// two of them, from left to right and from top to bottom.
pub proof fn law_boxes(map: MapView, outer: Seq<TileRef>, inner: Seq<TileRef>)
    requires
        map.wf(),
        outer.len() > 0,
        inner.len() > 0,
        forall|i: int| 0 <= i < outer.len() ==> map.valid(#[trigger] outer[i]),
        forall|i: int| 0 <= i < inner.len() ==> map.valid(#[trigger] inner[i]),
    ensures
        map.boxed(outer, inner) <==> forall|i: int|
            0 <= i < inner.len() ==> lies_between(map, outer, #[trigger] inner[i]),
{
    lemma_bbox(map, outer);
    lemma_bbox(map, inner);
    let o = map.bbox(outer)->0;
    let b = map.bbox(inner)->0;
    if o.holds(b) {
        assert forall|i: int| 0 <= i < inner.len() implies lies_between(
            map,
            outer,
            #[trigger] inner[i],
        ) by {
            lemma_bbox_ends(map, outer);
        }
    }
    if forall|i: int| 0 <= i < inner.len() ==> lies_between(map, outer, #[trigger] inner[i]) {
        lemma_bbox_ends(map, inner);
        let (l, r, u, d) = lemma_ends_at(map, inner);
        assert(lies_between(map, outer, inner[l]));
        assert(lies_between(map, outer, inner[r]));
        assert(lies_between(map, outer, inner[u]));
        assert(lies_between(map, outer, inner[d]));
    }
}

/// Whether some of the tiles are as far left, right, up and down as `t`.
pub open spec fn lies_between(map: MapView, tiles: Seq<TileRef>, t: TileRef) -> bool {
    &&& exists|i: int| 0 <= i < tiles.len() && map.x(#[trigger] tiles[i]) <= map.x(t)
    &&& exists|i: int| 0 <= i < tiles.len() && map.x(#[trigger] tiles[i]) >= map.x(t)
    &&& exists|i: int| 0 <= i < tiles.len() && map.y(#[trigger] tiles[i]) <= map.y(t)
    &&& exists|i: int| 0 <= i < tiles.len() && map.y(#[trigger] tiles[i]) >= map.y(t)
}

proof fn lemma_bbox(map: MapView, tiles: Seq<TileRef>)
    requires
        map.wf(),
        tiles.len() > 0,
        forall|i: int| 0 <= i < tiles.len() ==> map.valid(#[trigger] tiles[i]),
    ensures
        map.bbox(tiles) is Some,
        forall|i: int|
            0 <= i < tiles.len() ==> map.bbox(tiles)->0.min_x <= map.x(#[trigger] tiles[i])
                <= map.bbox(tiles)->0.max_x && map.bbox(tiles)->0.min_y <= map.y(tiles[i])
                <= map.bbox(tiles)->0.max_y,
    decreases tiles.len(),
{
    let front = tiles.drop_last();
    map.lemma_xy(tiles.last());
    assert(tiles[tiles.len() - 1] == tiles.last());
    if front.len() > 0 {
        assert forall|i: int| 0 <= i < front.len() implies map.valid(#[trigger] front[i]) by {
            assert(tiles[i] == front[i]);
        }
        lemma_bbox(map, front);
        assert forall|i: int| 0 <= i < tiles.len() implies map.bbox(tiles)->0.min_x <= map.x(
            #[trigger] tiles[i],
        ) <= map.bbox(tiles)->0.max_x && map.bbox(tiles)->0.min_y <= map.y(tiles[i]) <= map.bbox(
            tiles,
        )->0.max_y by {
            if i < front.len() {
                assert(front[i] == tiles[i]);
            }
        }
    }
}

/// Each side of the box is that of a tile.
proof fn lemma_ends_at(map: MapView, tiles: Seq<TileRef>) -> (at: (int, int, int, int))
    requires
        map.wf(),
        tiles.len() > 0,
        forall|i: int| 0 <= i < tiles.len() ==> map.valid(#[trigger] tiles[i]),
    ensures
        map.bbox(tiles) is Some,
        0 <= at.0 < tiles.len() && map.x(tiles[at.0]) == map.bbox(tiles)->0.min_x,
        0 <= at.1 < tiles.len() && map.x(tiles[at.1]) == map.bbox(tiles)->0.max_x,
        0 <= at.2 < tiles.len() && map.y(tiles[at.2]) == map.bbox(tiles)->0.min_y,
        0 <= at.3 < tiles.len() && map.y(tiles[at.3]) == map.bbox(tiles)->0.max_y,
    decreases tiles.len(),
{
    let front = tiles.drop_last();
    let n = tiles.len() - 1;
    let t = tiles.last();
    map.lemma_xy(t);
    assert(tiles[n] == t);
    if front.len() > 0 {
        assert forall|i: int| 0 <= i < front.len() implies map.valid(#[trigger] front[i]) by {
            assert(tiles[i] == front[i]);
        }
        let (a, b, c, d) = lemma_ends_at(map, front);
        assert(front[a] == tiles[a] && front[b] == tiles[b] && front[c] == tiles[c] && front[d]
            == tiles[d]);
        let o = map.bbox(front)->0;
        (
            if map.x(t) < o.min_x {
                n
            } else {
                a
            },
            if map.x(t) > o.max_x {
                n
            } else {
                b
            },
            if map.y(t) < o.min_y {
                n
            } else {
                c
            },
            if map.y(t) > o.max_y {
                n
            } else {
                d
            },
        )
    } else {
        (n, n, n, n)
    }
}

proof fn lemma_bbox_ends(map: MapView, tiles: Seq<TileRef>)
    requires
        map.wf(),
        tiles.len() > 0,
        forall|i: int| 0 <= i < tiles.len() ==> map.valid(#[trigger] tiles[i]),
    ensures
        exists|i: int|
            0 <= i < tiles.len() && map.x(#[trigger] tiles[i]) == map.bbox(tiles)->0.min_x,
        exists|i: int|
            0 <= i < tiles.len() && map.x(#[trigger] tiles[i]) == map.bbox(tiles)->0.max_x,
        exists|i: int|
            0 <= i < tiles.len() && map.y(#[trigger] tiles[i]) == map.bbox(tiles)->0.min_y,
        exists|i: int|
            0 <= i < tiles.len() && map.y(#[trigger] tiles[i]) == map.bbox(tiles)->0.max_y,
{
    let (a, b, c, d) = lemma_ends_at(map, tiles);
    assert(map.x(tiles[a]) == map.bbox(tiles)->0.min_x);
    assert(map.x(tiles[b]) == map.bbox(tiles)->0.max_x);
    assert(map.y(tiles[c]) == map.bbox(tiles)->0.min_y);
    assert(map.y(tiles[d]) == map.bbox(tiles)->0.max_y);
}

/// Clusters are looked at where the player lives and has land that changed since the last
/// look, and not within twenty ticks of it where it has a hundred tiles or more.
pub proof fn law_when_clusters_are_looked_at(game: GameView, sid: u16, tick: u32)
    ensures
        !game.is_alive(sid) || game.tiles_owned(sid) == 0 ==> game.pruning(sid, tick) == game,
        game.is_alive(sid) && game.tiles_owned(sid) > 0 && game.player(sid).last_cluster_calc > 0
            ==> {
            let seen = game.player(sid).last_cluster_calc;
            &&& game.tiles_owned(sid) >= 100 && tick - seen <= 20 ==> game.pruning(sid, tick)
                == game
            &&& game.player(sid).last_tile_change < seen ==> game.pruning(sid, tick) == game
            &&& (game.tiles_owned(sid) < 100 || tick - seen > 20) && game.player(
                sid,
            ).last_tile_change >= seen ==> game.pruning(sid, tick) == game.noting_clusters(
                sid,
                tick,
            ).annexing_clusters(sid)
        },
{
}

} // verus!
