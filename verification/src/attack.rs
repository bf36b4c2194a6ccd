//! Attacks over land.

use vstd::prelude::*;

use crate::config::{Difficulty, TROOP_SCALE};
use crate::execution::Execution;
use crate::flat_heap::FlatBinaryHeap;
use crate::game::{Game, GameView};
use crate::game_attacks::Clash;
use crate::map::{MapView, TerrainType};
use crate::ordered_tiles::{OrderedTiles, TileRef};
use crate::orders::Order;
use crate::prng::PseudoRandom;
use crate::state::{AllianceRequestStatus, LandAttack, LandAttackView, PlayerType, MAX_ATTACK};

verus! {

/// An attack over land, from its start until its troops are spent or called back.
/// Troops are scaled.
pub struct AttackExecution {
    pub owner_small_id: u16,
    pub target_player_id: Option<String>,
    pub start_troops: Option<i64>,
    pub troops: i64,
    pub target_small_id: u16,
    pub target_is_player: bool,
    pub to_conquer: FlatBinaryHeap,
    pub border_tiles: OrderedTiles,
    pub source_tile: Option<TileRef>,
    pub remove_troops: bool,
    pub random: PseudoRandom,
    pub attack_id: String,
    pub retreating: bool,
    pub retreated: bool,
    pub active: bool,
    /// False once the attack is over, while the execution stays for one tick more.
    pub attack_live: bool,
    pub initialized: bool,
    /// Set by a tick on which the attack fights on, until its fight is over.
    pub fighting: bool,
}

/// The seed that every attack's own draws start from.
pub const ATTACK_SEED: i32 = 123;

impl AttackExecution {
    /// The frontier's two collections are well formed.
    pub open spec fn wf(&self) -> bool {
        self.to_conquer.wf() && self.border_tiles.wf()
    }

    /// Whether nothing has come of the attack yet.
    pub open spec fn is_fresh(&self) -> bool {
        &&& self.wf()
        &&& self.active
        &&& !self.initialized
        &&& self.attack_live
        &&& !self.retreating
        &&& !self.retreated
        &&& !self.fighting
        &&& self.remove_troops == (self.source_tile is None)
        &&& self.troops == 0
        &&& self.target_small_id == 0
        &&& !self.target_is_player
        &&& self.to_conquer@.len() == 0
        &&& self.border_tiles@.len() == 0
        &&& self.random.state == crate::prng::seed_state(ATTACK_SEED)
        &&& self.attack_id@.len() == 0
    }

    /// What the execution was created with.
    pub open spec fn order(&self) -> Order {
        Order::Attack {
            owner: self.owner_small_id,
            target: crate::orders::text(self.target_player_id),
            troops: match self.start_troops {
                Some(n) => Some(n as int),
                None => None,
            },
            source: self.source_tile,
        }
    }

    pub fn new(
        owner_small_id: u16,
        target_player_id: Option<String>,
        start_troops: Option<i64>,
    ) -> (execution: Self)
        ensures
            execution.is_fresh(),
            execution.owner_small_id == owner_small_id,
            execution.target_player_id == target_player_id,
            execution.start_troops == start_troops,
            execution.source_tile is None,
    {
        Self::new_with_source(owner_small_id, target_player_id, start_troops, None)
    }

    /// An attack that starts from `source_tile` where one is given, with troops that have
    /// left their owner already.
    pub fn new_with_source(
        owner_small_id: u16,
        target_player_id: Option<String>,
        start_troops: Option<i64>,
        source_tile: Option<TileRef>,
    ) -> (execution: Self)
        ensures
            execution.is_fresh(),
            execution.owner_small_id == owner_small_id,
            execution.target_player_id == target_player_id,
            execution.start_troops == start_troops,
            execution.source_tile == source_tile,
    {
        AttackExecution {
            owner_small_id,
            target_player_id,
            start_troops,
            troops: 0,
            target_small_id: 0,
            target_is_player: false,
            to_conquer: FlatBinaryHeap::new(1024),
            border_tiles: OrderedTiles::default(),
            source_tile,
            remove_troops: source_tile.is_none(),
            random: PseudoRandom::new(ATTACK_SEED),
            attack_id: String::new(),
            retreating: false,
            retreated: false,
            active: true,
            attack_live: true,
            initialized: false,
            fighting: false,
        }
    }
}

/// The part of a returning attack's troops that dies, in percent.
pub const RETREAT_MALUS_PERCENT: i64 = 25;

/// A defender with fewer tiles than this is overrun.
pub const OVERRUN_TILES: i64 = 100;

/// How often the tiles of an overrun defender are gone through.
pub const OVERRUN_ROUNDS: usize = 10;

/// What an attack may take next: a heap of tiles by priority, the same tiles in the order in
/// which they were found, and the random state.
#[verifier::ext_equal]
pub struct Front {
    pub heap: Seq<(i64, TileRef)>,
    pub border: Seq<TileRef>,
    pub rng: u64,
}

/// How hard terrain is to take, in halves.
pub open spec fn hardness(terrain: TerrainType) -> int {
    match terrain {
        TerrainType::Plains => 2,
        TerrainType::Highland => 3,
        TerrainType::Mountain => 4,
        _ => 0,
    }
}

/// Tiles of a player.
pub open spec fn held_by_player(map: MapView, sid: u16) -> spec_fn(TileRef) -> bool {
    |t: TileRef| map.owner(t) == sid
}

impl Front {
    /// The front after a tile next to taken land was seen, if it can be taken. The more of
    /// its neighbors the attacker holds and the easier it is, the sooner it comes, by
    /// chance; priorities count in quarters.
    pub open spec fn seeing(self, map: MapView, t: TileRef, owner: u16, target: u16, tick: u32) -> Front {
        if map.is_water(t) || map.is_impassable(t) || map.owner(t) != target {
            self
        } else {
            let own = map.neighbors4(t).filter(held_by_player(map, owner)).len();
            let priority = (crate::prng::int_drawn(self.rng, 0, 7) + 10) * (4 - 2 * own + hardness(
                map.terrain_type(t),
            )) + 4 * tick;
            Front {
                heap: crate::flat_heap::queued(self.heap, (priority as i64, t)),
                border: crate::ordered_tiles::with(self.border, t),
                rng: crate::prng::next_state(self.rng),
            }
        }
    }

    pub open spec fn seeing_all(
        self,
        map: MapView,
        tiles: Seq<TileRef>,
        owner: u16,
        target: u16,
        tick: u32,
    ) -> Front
        decreases tiles.len(),
    {
        if tiles.len() == 0 {
            self
        } else {
            self.seeing_all(map, tiles.drop_last(), owner, target, tick).seeing(
                map,
                tiles.last(),
                owner,
                target,
                tick,
            )
        }
    }

    /// The front after the neighbors of a tile were seen.
    pub open spec fn widening(self, map: MapView, t: TileRef, owner: u16, target: u16, tick: u32) -> Front {
        self.seeing_all(map, map.neighbors4(t), owner, target, tick)
    }

    pub open spec fn widening_all(
        self,
        map: MapView,
        tiles: Seq<TileRef>,
        owner: u16,
        target: u16,
        tick: u32,
    ) -> Front
        decreases tiles.len(),
    {
        if tiles.len() == 0 {
            self
        } else {
            self.widening_all(map, tiles.drop_last(), owner, target, tick).widening(
                map,
                tiles.last(),
                owner,
                target,
                tick,
            )
        }
    }

    /// The front along the border of the attacker, found anew.
    pub open spec fn refreshed(self, game: GameView, owner: u16, target: u16) -> Front {
        Front { heap: Seq::empty(), border: Seq::empty(), rng: self.rng }.widening_all(
            game.map,
            game.border(owner),
            owner,
            target,
            game.tick,
        )
    }

    /// The front without the tile that comes first.
    pub open spec fn popped(self) -> Front {
        Front {
            heap: crate::flat_heap::dequeued(self.heap),
            border: crate::ordered_tiles::without(self.border, self.heap[0].1),
            ..self
        }
    }

    /// The first tile of the front that can be taken, and the front after it was chosen;
    /// those that cannot are dropped.
    pub open spec fn choosing(self, map: MapView, owner: u16, target: u16, tick: u32) -> (
        Front,
        Option<TileRef>,
    )
        decreases self.heap.len(),
    {
        if self.heap.len() == 0 {
            (self, None)
        } else {
            proof {
                crate::flat_heap::lemma_dequeued_len(self.heap);
            }
            let t = self.heap[0].1;
            if map.takable(t, owner, target) {
                (self.popped().widening(map, t, owner, target, tick), Some(t))
            } else {
                self.popped().choosing(map, owner, target, tick)
            }
        }
    }

    /// Every tile of the front is on the map.
    pub open spec fn on_map(self, map: MapView) -> bool {
        forall|i: int| 0 <= i < self.heap.len() ==> map.valid((#[trigger] self.heap[i]).1)
    }
}

impl MapView {
    /// Whether an attacker can take a tile of the target: it borders on the attacker's land
    /// and is land that can be entered.
    pub open spec fn takable(self, t: TileRef, owner: u16, target: u16) -> bool {
        self.owner(t) == target && crate::lists::some_where(
            self.neighbors4(t),
            held_by_player(self, owner),
        ) && self.is_land(t) && !self.is_impassable(t)
    }
}

impl AttackExecution {
    /// What the attack may take next.
    pub open spec fn front(&self) -> Front {
        Front {
            heap: self.to_conquer@,
            border: self.border_tiles@,
            rng: self.random.state,
        }
    }

    /// Whether everything but the front is the same.
    pub open spec fn same_but_front(&self, other: &AttackExecution) -> bool {
        &&& self.owner_small_id == other.owner_small_id
        &&& self.target_player_id == other.target_player_id
        &&& self.start_troops == other.start_troops
        &&& self.troops == other.troops
        &&& self.target_small_id == other.target_small_id
        &&& self.target_is_player == other.target_is_player
        &&& self.source_tile == other.source_tile
        &&& self.remove_troops == other.remove_troops
        &&& self.attack_id == other.attack_id
        &&& self.retreating == other.retreating
        &&& self.retreated == other.retreated
        &&& self.active == other.active
        &&& self.attack_live == other.attack_live
        &&& self.initialized == other.initialized
        &&& self.fighting == other.fighting
    }

    /// Looks at a tile next to taken land.
    fn see(&mut self, game: &Game, t: TileRef, tick: u32)
        requires
            old(self).wf(),
            game@.wf(),
            game@.map.valid(t),
            old(self).front().on_map(game@.map),
        ensures
            final(self).wf(),
            final(self).same_but_front(old(self)),
            final(self).front() == old(self).front().seeing(
                game@.map,
                t,
                old(self).owner_small_id,
                old(self).target_small_id,
                tick,
            ),
            final(self).front().on_map(game@.map),
    {
        if game.map.is_water(t) || game.map.is_impassable(t) || game.map.owner_id(t)
            != self.target_small_id {
            return;
        }
        let owner: u16 = self.owner_small_id;
        let next = game.map.neighbors4(t);
        let accepts = |x: TileRef| -> (own: bool)
            requires
                game@.map.valid(x),
            ensures
                own == held_by_player(game@.map, owner)(x),
            { game.map.owner_id(x) == owner };
        let own: usize = crate::lists::filter_by(
            &next,
            accepts,
            Ghost(held_by_player(game@.map, owner)),
        ).len();
        let mag: i64 = match game.map.terrain_type(t) {
            TerrainType::Plains => 2,
            TerrainType::Highland => 3,
            TerrainType::Mountain => 4,
            _ => 0,
        };
        self.border_tiles.insert(t);
        let draw: i64 = self.random.next_int(0, 7) as i64 + 10;
        let ease: i64 = 4 - 2 * own as i64 + mag;
        assert(-64 <= draw * ease <= 128) by (nonlinear_arith)
            requires
                10 <= draw <= 16,
                -4 <= ease <= 8,
        ;
        let priority: i64 = draw * ease + 4 * tick as i64;
        let ghost before = self.to_conquer@;
        self.to_conquer.enqueue(t, priority);
        proof {
            assert forall|i: int| 0 <= i < before.len() implies game@.map.valid(
                (#[trigger] before[i]).1,
            ) by {
                assert(game@.map.valid(old(self).front().heap[i].1));
            }
            lemma_queued_on_map(game@.map, before, (priority, t), self.to_conquer@);
        }
    }

    /// Looks at the neighbors of a tile.
    pub(crate) fn add_neighbors(&mut self, game: &Game, tile: TileRef, tick: u32)
        requires
            old(self).wf(),
            game@.wf(),
            game@.map.valid(tile),
            old(self).front().on_map(game@.map),
        ensures
            final(self).wf(),
            final(self).same_but_front(old(self)),
            final(self).front() == old(self).front().widening(
                game@.map,
                tile,
                old(self).owner_small_id,
                old(self).target_small_id,
                tick,
            ),
            final(self).front().on_map(game@.map),
    {
        let next = game.map.neighbors4(tile);
        let ghost start = self.front();
        assert(next@.take(0) =~= Seq::empty());
        for i in 0..next.len()
            invariant
                self.wf(),
                game@.wf(),
                self.same_but_front(old(self)),
                forall|k: int| 0 <= k < next@.len() ==> game@.map.valid(#[trigger] next@[k]),
                self.front().on_map(game@.map),
                self.front() == start.seeing_all(
                    game@.map,
                    next@.take(i as int),
                    old(self).owner_small_id,
                    old(self).target_small_id,
                    tick,
                ),
        {
            assert(next@.take(i + 1).drop_last() =~= next@.take(i as int));
            assert(game@.map.valid(next@[i as int]));
            self.see(game, next[i], tick);
        }
        proof {
            crate::lists::lemma_take_all(next@);
        }
    }

    /// Finds the front anew, along the attacker's border.
    pub(crate) fn refresh_to_conquer(&mut self, game: &Game)
        requires
            old(self).wf(),
            game@.wf(),
        ensures
            final(self).wf(),
            final(self).same_but_front(old(self)),
            final(self).front() == old(self).front().refreshed(
                game@,
                old(self).owner_small_id,
                old(self).target_small_id,
            ),
            final(self).front().on_map(game@.map),
    {
        self.to_conquer.clear();
        self.border_tiles.clear();
        let border = game.border_tiles_for(self.owner_small_id);
        let tick: u32 = game.ticks();
        let ghost start = Front {
            heap: Seq::empty(),
            border: Seq::empty(),
            rng: old(self).random.state,
        };
        assert(self.front() =~= start);
        assert(border@.take(0) =~= Seq::empty());
        for i in 0..border.len()
            invariant
                self.wf(),
                game@.wf(),
                self.same_but_front(old(self)),
                forall|k: int| 0 <= k < border@.len() ==> game@.map.valid(#[trigger] border@[k]),
                self.front().on_map(game@.map),
                self.front() == start.widening_all(
                    game@.map,
                    border@.take(i as int),
                    old(self).owner_small_id,
                    old(self).target_small_id,
                    tick,
                ),
        {
            assert(border@.take(i + 1).drop_last() =~= border@.take(i as int));
            assert(game@.map.valid(border@[i as int]));
            self.add_neighbors(game, border[i], tick);
        }
        proof {
            crate::lists::lemma_take_all(border@);
        }
    }
}

proof fn lemma_queued_on_map(
    map: MapView,
    before: Seq<(i64, TileRef)>,
    x: (i64, TileRef),
    after: Seq<(i64, TileRef)>,
)
    requires
        after.to_multiset() == before.to_multiset().insert(x),
        forall|i: int| 0 <= i < before.len() ==> map.valid((#[trigger] before[i]).1),
        map.valid(x.1),
    ensures
        forall|i: int| 0 <= i < after.len() ==> map.valid((#[trigger] after[i]).1),
{
    broadcast use vstd::seq_lib::group_to_multiset_ensures;

    assert forall|i: int| 0 <= i < after.len() implies map.valid((#[trigger] after[i]).1) by {
        let e = after[i];
        assert(after.contains(e));
        assert(after.to_multiset().count(e) > 0);
        if e != x {
            assert(before.to_multiset().count(e) > 0);
            assert(before.contains(e));
        }
    }
}

pub(crate) proof fn lemma_dequeued_on_map(
    map: MapView,
    before: Seq<(i64, TileRef)>,
    after: Seq<(i64, TileRef)>,
)
    requires
        before.len() > 0,
        after.to_multiset() == before.to_multiset().remove(before[0]),
        forall|i: int| 0 <= i < before.len() ==> map.valid((#[trigger] before[i]).1),
    ensures
        forall|i: int| 0 <= i < after.len() ==> map.valid((#[trigger] after[i]).1),
{
    broadcast use vstd::seq_lib::group_to_multiset_ensures;

    assert forall|i: int| 0 <= i < after.len() implies map.valid((#[trigger] after[i]).1) by {
        let e = after[i];
        assert(after.contains(e));
        assert(after.to_multiset().count(e) > 0);
        assert(before.to_multiset().count(e) > 0);
        assert(before.contains(e));
    }
}

/// How a player's opinion of its attacker changes.
pub open spec fn grudge(difficulty: Difficulty) -> int {
    match difficulty {
        Difficulty::Easy => -60,
        Difficulty::Hard => -80,
        Difficulty::Impossible => -100,
        _ => -70,
    }
}

impl GameView {
    /// Tiles of those who may take what is left of a player.
    pub open spec fn claimant(self, target: u16) -> spec_fn(TileRef) -> bool {
        |t: TileRef|
            self.map.owner(t) != 0 && self.map.owner(t) != target && !self.is_friendly(
                self.map.owner(t),
                target,
            )
    }

    /// The game after a tile of an overrun player fell to the attacker next to it, or to
    /// another enemy there.
    pub open spec fn mopping_tile(self, owner: u16, target: u16, t: TileRef) -> GameView {
        let near = self.map.neighbors4(t);
        if crate::lists::some_where(near, held_by_player(self.map, owner)) {
            self.transferring(t, owner, true)
        } else {
            match crate::lists::first_where(near, self.claimant(target)) {
                Some(x) => self.transferring(t, self.map.owner(x), true),
                None => self,
            }
        }
    }

    pub open spec fn mopping_tiles(self, owner: u16, target: u16, tiles: Seq<TileRef>) -> GameView
        decreases tiles.len(),
    {
        if tiles.len() == 0 {
            self
        } else {
            self.mopping_tiles(owner, target, tiles.drop_last()).mopping_tile(
                owner,
                target,
                tiles.last(),
            )
        }
    }

    pub open spec fn mopping_rounds(self, owner: u16, target: u16, n: nat) -> GameView
        decreases n,
    {
        if n == 0 {
            self
        } else {
            let before = self.mopping_rounds(owner, target, (n - 1) as nat);
            before.mopping_tiles(owner, target, before.map.territory(target))
        }
    }

    /// The game after a defender with little land left was overrun: its gold goes to the
    /// attacker, and its land to whoever is next to it.
    pub open spec fn overrunning(self, owner: u16, target: u16) -> GameView {
        if self.has(target) && self.tiles_owned(target) < OVERRUN_TILES {
            self.plundering(owner, target).mopping_rounds(owner, target, OVERRUN_ROUNDS as nat)
        } else {
            self
        }
    }
}

impl Game {
    fn mop_up(&mut self, owner: u16, target: u16, t: TileRef)
        requires
            old(self).wf(),
            old(self)@.map.valid(t),
        ensures
            final(self).wf(),
            final(self)@ == old(self)@.mopping_tile(owner, target, t),
            final(self)@.map.tiles.len() == old(self)@.map.tiles.len(),
    {
        let game_now: &Game = self;
        let near = game_now.map.neighbors4(t);
        let own = |x: TileRef| -> (mine: bool)
            requires
                game_now@.map.valid(x),
            ensures
                mine == held_by_player(game_now@.map, owner)(x),
            { game_now.map.owner_id(x) == owner };
        if crate::lists::any_by(&near, own, Ghost(held_by_player(game_now@.map, owner))) {
            self.conquer(owner, t);
            return;
        }
        let rival = |x: TileRef| -> (theirs: bool)
            requires
                game_now@.map.valid(x),
            ensures
                theirs == game_now@.claimant(target)(x),
            {
                let oid: u16 = game_now.map.owner_id(x);
                oid != 0 && oid != target && !game_now.is_friendly(oid, target)
            };
        let found: Option<TileRef> = crate::lists::find_by(
            &near,
            rival,
            Ghost(game_now@.claimant(target)),
        );
        match found {
            Some(x) => {
                assert(near@.contains(x));
                let captor: u16 = self.map.owner_id(x);
                self.conquer(captor, t);
            },
            None => {},
        }
    }

    pub(crate) fn overrun(&mut self, owner: u16, target: u16)
        requires
            old(self).wf(),
        ensures
            final(self).wf(),
            final(self)@ == old(self)@.overrunning(owner, target),
            final(self)@.map.tiles.len() == old(self)@.map.tiles.len(),
    {
        if self.player_by_small_id(target).is_none() || self.tiles_of(target) >= OVERRUN_TILES {
            return;
        }
        let ghost n = self@.map.tiles.len();
        self.conquer_player(owner, target);
        let ghost start = self@;
        for k in 0..OVERRUN_ROUNDS
            invariant
                self.wf(),
                self@.map.tiles.len() == n,
                self@ == start.mopping_rounds(owner, target, k as nat),
        {
            let tiles = crate::territory::owned_tiles(&self.map, target);
            let ghost before = self@;
            assert(tiles@.take(0) =~= Seq::empty());
            for i in 0..tiles.len()
                invariant
                    self.wf(),
                    self@.map.tiles.len() == n,
                    forall|j: int| 0 <= j < tiles@.len() ==> (#[trigger] tiles@[j]) < n,
                    self@ == before.mopping_tiles(owner, target, tiles@.take(i as int)),
            {
                assert(tiles@.take(i + 1).drop_last() =~= tiles@.take(i as int));
                assert(tiles@[i as int] < n);
                self.mop_up(owner, target, tiles[i]);
            }
            proof {
                crate::lists::lemma_take_all(tiles@);
            }
        }
    }
}

/// An attack's troops, and the game after the others of its owner that go to the same place
/// joined it. Nothing joins an attack that came by sea.
#[verifier::opaque]
pub open spec fn joined(
    met: GameView,
    owner: u16,
    target: u16,
    id: Seq<char>,
    troops: int,
    by_sea: bool,
) -> (GameView, int) {
    let (attacks, sum) = crate::game_attacks::merged(met.attacks, owner, target, id, troops);
    if !by_sea {
        (GameView { attacks, ..met }.manning(owner, id, sum), sum)
    } else {
        (met.manning(owner, id, troops), troops)
    }
}

impl AttackExecution {
    /// The attack's troops, whether it is to come back and whether it has, as long as it is
    /// under way. An attack that has an id yet is looked up in the game.
    pub open spec fn standing(&self, game: GameView) -> Option<(int, bool, bool)> {
        if !self.attack_live {
            None
        } else if self.attack_id@.len() == 0 {
            Some((self.troops as int, self.retreating, self.retreated))
        } else {
            match game.attack_of(self.owner_small_id, self.attack_id@) {
                Some(a) => Some(
                    (
                        a.troops as int,
                        self.retreating || a.retreating,
                        self.retreated || a.retreated,
                    ),
                ),
                None => None,
            }
        }
    }

    /// The game after the attack was struck off.
    pub open spec fn struck_off(&self, game: GameView) -> GameView {
        if self.attack_live {
            game.ending_attack(self.owner_small_id, self.attack_id@)
        } else {
            game
        }
    }

    /// The troops of an attack that come home, where some die on the way.
    pub open spec fn survivors(&self, troops: int, malus: int) -> int {
        let own = if !self.remove_troops && self.source_tile is None {
            troops - (match self.start_troops {
                Some(t) => t as int,
                None => 0,
            })
        } else {
            troops
        };
        let left = own - troops * malus / 100;
        if left <= 0 {
            0
        } else if left > i64::MAX {
            i64::MAX as int
        } else {
            left
        }
    }

    /// The game after the attack came home. One that was called back is not counted as
    /// sent.
    pub open spec fn returned(&self, game: GameView, troops: int, malus: int, called: bool) -> GameView {
        let home = self.survivors(troops, malus);
        let joined = if home >= TROOP_SCALE {
            game.reinforcing(self.owner_small_id, home)
        } else {
            game
        };
        self.struck_off(
            if called {
                joined.counting_sent(self.owner_small_id, -home)
            } else {
                joined
            },
        )
    }

    /// The part of the troops that dies when an attack is called back.
    pub open spec fn malus(&self) -> int {
        if self.target_is_player {
            RETREAT_MALUS_PERCENT as int
        } else {
            0
        }
    }

    /// Whom the attack is meant for: nobody where no player is named, `None` where the
    /// player is not there.
    pub open spec fn aim(&self, game: GameView) -> Option<u16> {
        match self.target_player_id {
            Some(id) => game.known(id@),
            None => Some(0),
        }
    }

    /// Whether the attack cannot begin: nobody attacks while players spawn, without an
    /// owner, or a friend.
    pub open spec fn is_refused(&self, game: GameView) -> bool {
        game.spawn_phase || !game.has(self.owner_small_id) || self.aim(game) is None || (
        self.target_player_id is Some && game.is_friendly(
            self.owner_small_id,
            self.aim(game)->0,
        ))
    }

    /// The game after the target took notice: it stops trading with the attacker and refuses
    /// an alliance that was asked for, unless one of the two is a bot.
    pub open spec fn alarmed(&self, game: GameView, tick: u32) -> GameView {
        let target = self.aim(game)->0;
        if self.target_player_id is Some && !game.of_type(self.owner_small_id, PlayerType::Bot)
            && !game.of_type(target, PlayerType::Bot) {
            game.embargoing(target, self.owner_small_id, true, tick).answering(
                target,
                self.owner_small_id,
                AllianceRequestStatus::Rejected,
            )
        } else {
            game
        }
    }

    /// Whether the attack begins.
    pub open spec fn begins(&self, game: GameView, tick: u32) -> bool {
        !self.is_refused(game) && (self.target_player_id is None || self.alarmed(
            game,
            tick,
        ).may_attack(self.owner_small_id, self.aim(game)->0))
    }

    /// The troops that the attack sets out with.
    pub open spec fn opening(&self, game: GameView) -> int {
        let asked = match self.start_troops {
            Some(t) => t as int,
            None => game.usual_attack(self.owner_small_id),
        };
        let most = game.troops(self.owner_small_id) * TROOP_SCALE;
        crate::game_attacks::swelled(
            0,
            if self.remove_troops && most < asked {
                most
            } else {
                asked
            },
        )
    }

    /// The game after the attack's troops set out.
    #[verifier::opaque]
    pub open spec fn set_out(&self, game: GameView, target: u16) -> GameView {
        let start = self.opening(game);
        let left = if self.remove_troops {
            game.losing(self.owner_small_id, start)
        } else {
            game
        };
        let counted = left.counting_sent(self.owner_small_id, start);
        let named = counted.drawing_attack_id(self.owner_small_id);
        GameView {
            attacks: named.attacks.push(
                LandAttackView {
                    id: counted.next_attack_id(self.owner_small_id),
                    attacker: self.owner_small_id,
                    target,
                    troops: start as i64,
                    from_sea: self.source_tile is Some,
                    retreating: false,
                    retreated: false,
                },
            ),
            ..named
        }
    }

    /// The id that the attack gets.
    pub open spec fn drawn_id(&self, game: GameView) -> Seq<char> {
        game.next_attack_id(self.owner_small_id)
    }

    /// What an attack that set out meets on its way.
    pub open spec fn meeting(&self, out: GameView, target: u16, start: int) -> Clash {
        crate::game_attacks::clash(out.attacks, self.owner_small_id, target, start)
    }

    /// The troops of an attack that set out, once it met and joined others.
    pub open spec fn strength(&self, out: GameView, target: u16, id: Seq<char>, start: int) -> int {
        let meeting = self.meeting(out, target, start);
        let met = GameView { attacks: meeting.attacks, ..out };
        if meeting.goes_on {
            joined(met, self.owner_small_id, target, id, meeting.troops, self.source_tile is Some).1
        } else {
            meeting.troops
        }
    }

    /// The game after an attack that set out met and joined others. Its target thinks the
    /// less of its owner.
    pub open spec fn engaged(&self, out: GameView, target: u16, id: Seq<char>, start: int) -> GameView {
        let meeting = self.meeting(out, target, start);
        let met = GameView { attacks: meeting.attacks, ..out };
        if !meeting.goes_on {
            met.ending_attack(self.owner_small_id, id)
        } else if self.target_player_id is Some {
            joined(met, self.owner_small_id, target, id, meeting.troops, self.source_tile is Some).0.relating(
                target,
                self.owner_small_id,
                grudge(out.config.difficulty),
            )
        } else {
            joined(met, self.owner_small_id, target, id, meeting.troops, self.source_tile is Some).0
        }
    }

    /// The game after the attack began against `target`.
    pub open spec fn launched(&self, game: GameView, target: u16) -> GameView {
        self.engaged(
            self.set_out(game, target),
            target,
            self.drawn_id(game),
            self.opening(game),
        )
    }

    /// The front at which the attack begins.
    pub open spec fn first_front(&self, game: GameView, target: u16) -> Front {
        match self.source_tile {
            Some(src) => self.front().widening(
                game.map,
                src,
                self.owner_small_id,
                target,
                game.tick,
            ),
            None => self.front().refreshed(game, self.owner_small_id, target),
        }
    }

    pub fn attack_id(&self) -> (id: &str)
        ensures
            id@ == self.attack_id@,
    {
        self.attack_id.as_str()
    }

    /// Orders the attack back.
    pub fn order_retreat(&mut self)
        ensures
            *final(self) == (AttackExecution { retreating: true, ..*old(self) }),
    {
        self.retreating = true;
    }

    pub fn retreating(&self) -> (retreating: bool)
        ensures
            retreating == self.retreating,
    {
        self.retreating
    }

    /// Lets the attack be back.
    pub fn execute_retreat(&mut self)
        ensures
            *final(self) == (AttackExecution { retreated: true, ..*old(self) }),
    {
        self.retreated = true;
    }

    pub fn is_initialized(&self) -> (initialized: bool)
        ensures
            initialized == self.initialized,
    {
        self.initialized
    }

    pub fn owner_small_id(&self) -> (owner: u16)
        ensures
            owner == self.owner_small_id,
    {
        self.owner_small_id
    }

    pub fn target_small_id(&self) -> (target: u16)
        ensures
            target == self.target_small_id,
    {
        self.target_small_id
    }

    pub fn troops(&self) -> (troops: i64)
        ensures
            troops == self.troops,
    {
        self.troops
    }

    pub fn source_tile(&self) -> (tile: Option<TileRef>)
        ensures
            tile == self.source_tile,
    {
        self.source_tile
    }

    /// Sets the attack's troops, which are never fewer than none.
    pub fn set_troops(&mut self, troops: i64)
        ensures
            *final(self) == (AttackExecution {
                troops: if troops < 0 {
                    0
                } else {
                    troops
                },
                ..*old(self)
            }),
    {
        self.troops = if troops < 0 {
            0
        } else {
            troops
        };
    }

    pub fn deactivate(&mut self)
        ensures
            *final(self) == (AttackExecution { active: false, ..*old(self) }),
    {
        self.active = false;
    }

    pub fn attack_live(&self) -> (live: bool)
        ensures
            live == self.attack_live,
    {
        self.attack_live
    }

    pub fn border_tile_count(&self) -> (n: usize)
        requires
            self.wf(),
        ensures
            n == self.border_tiles@.len(),
    {
        self.border_tiles.len()
    }

    pub fn to_conquer_len(&self) -> (n: usize)
        ensures
            n == self.to_conquer@.len(),
    {
        self.to_conquer.len()
    }

    /// Strikes the attack off.
    pub fn kill_attack(&mut self, game: &mut Game)
        requires
            old(game).wf(),
        ensures
            final(game).wf(),
            final(game)@ == old(self).struck_off(old(game)@),
            *final(self) == (AttackExecution { attack_live: false, ..*old(self) }),
    {
        if self.attack_live {
            game.unregister_land_attack(self.owner_small_id, &self.attack_id);
        }
        self.attack_live = false;
    }

    /// Whether a new attack of a player could join this one.
    pub fn can_merge_with(&self, owner_small_id: u16, target_player_id: &Option<String>) -> (can: bool)
        ensures
            can == (self.owner_small_id == owner_small_id && crate::orders::text(
                self.target_player_id,
            ) == crate::orders::text(*target_player_id)),
    {
        if self.owner_small_id != owner_small_id {
            return false;
        }
        match (&self.target_player_id, target_player_id) {
            (Some(a), Some(b)) => *a == *b,
            (None, None) => true,
            _ => false,
        }
    }

    /// Adds troops to an attack that has not begun.
    pub fn absorb_pending_troops(&mut self, extra: Option<i64>)
        ensures
            *final(self) == (AttackExecution {
                start_troops: match extra {
                    Some(more) => if more <= 0 {
                        old(self).start_troops
                    } else {
                        match old(self).start_troops {
                            Some(t) => Some(crate::game_attacks::swelled(t as int, more as int) as i64),
                            None => Some(crate::game_attacks::swelled(0, more as int) as i64),
                        }
                    },
                    None => old(self).start_troops,
                },
                ..*old(self)
            }),
    {
        let more: i64 = match extra {
            Some(more) => more,
            None => 0,
        };
        if more <= 0 {
            return;
        }
        self.start_troops = match self.start_troops {
            Some(t) => Some(crate::game_attacks::swell(t, more)),
            None => Some(crate::game_attacks::swell(0, more)),
        };
    }

    /// Whom the attack may call on: its owner's usual attack or what was asked for, as far
    /// as the owner has it.
    pub open spec fn reserve(&self, game: GameView, extra: Option<i64>) -> int {
        let asked = match extra {
            Some(t) => t as int,
            None => game.usual_attack(self.owner_small_id),
        };
        let most = game.troops(self.owner_small_id) * TROOP_SCALE;
        if most < asked {
            most
        } else {
            asked
        }
    }

    /// Adds troops of its owner to an attack under way, one at least.
    pub fn absorb_troops(&mut self, game: &mut Game, extra: Option<i64>)
        requires
            old(game).wf(),
            -MAX_ATTACK <= old(self).troops <= MAX_ATTACK,
        ensures
            final(game).wf(),
            ({
                let more = old(self).reserve(old(game)@, extra);
                if old(game)@.has(old(self).owner_small_id) && more >= TROOP_SCALE {
                    &&& final(game)@ == old(game)@.losing(old(self).owner_small_id, more)
                    &&& *final(self) == (AttackExecution {
                        troops: crate::game_attacks::swelled(old(self).troops as int, more) as i64,
                        ..*old(self)
                    })
                } else {
                    final(game)@ == old(game)@ && *final(self) == *old(self)
                }
            }),
    {
        let owner: u16 = self.owner_small_id;
        if game.player_by_small_id(owner).is_none() {
            return;
        }
        let asked: i64 = match extra {
            Some(t) => t,
            None => game.attack_amount(owner),
        };
        let most: i64 = game.troops_of(owner) * TROOP_SCALE;
        let more: i64 = if most < asked {
            most
        } else {
            asked
        };
        if more < TROOP_SCALE {
            return;
        }
        game.remove_troops(owner, more);
        self.troops = crate::game_attacks::swell(self.troops, more);
    }

    fn count_survivors(&self, troops: i64, malus: i64) -> (home: i64)
        requires
            -MAX_ATTACK <= troops <= MAX_ATTACK,
            0 <= malus <= 100,
        ensures
            home == self.survivors(troops as int, malus as int),
            0 <= home,
    {
        assert(-90_000_000_000_000_000 * 100 <= troops * malus <= 90_000_000_000_000_000 * 100)
            by (nonlinear_arith)
            requires
                -90_000_000_000_000_000 <= troops <= 90_000_000_000_000_000,
                0 <= malus <= 100,
        ;
        let part: i64 = troops * malus;
        let deaths: i64 = if part >= 0 {
            part / 100
        } else {
            -((99 - part) / 100)
        };
        let mut own: i128 = troops as i128;
        if !self.remove_troops && self.source_tile.is_none() {
            own = own - (match self.start_troops {
                Some(t) => t as i128,
                None => 0,
            });
        }
        let left: i128 = own - deaths as i128;
        if left <= 0 {
            0
        } else if left > i64::MAX as i128 {
            i64::MAX
        } else {
            left as i64
        }
    }

    /// Brings the attack home.
    pub(crate) fn retreat(&mut self, game: &mut Game, troops: i64, malus: i64, called: bool)
        requires
            old(game).wf(),
            -MAX_ATTACK <= troops <= MAX_ATTACK,
            0 <= malus <= 100,
        ensures
            final(game).wf(),
            final(game)@ == old(self).returned(
                old(game)@,
                troops as int,
                malus as int,
                called,
            ),
            *final(self) == (AttackExecution {
                troops: 0,
                attack_live: false,
                active: false,
                ..*old(self)
            }),
    {
        let owner: u16 = self.owner_small_id;
        let home: i64 = self.count_survivors(troops, malus);
        if home >= TROOP_SCALE {
            game.add_troops(owner, home);
        }
        if called {
            game.adjust_attacks_sent(owner, -home);
        }
        self.kill_attack(game);
        self.troops = 0;
        self.active = false;
    }
}

impl AttackExecution {
    /// Sends the attack's troops out.
    fn send_out(&mut self, game: &mut Game) -> (start: i64)
        requires
            old(game).wf(),
            old(game)@.has(old(self).owner_small_id),
        ensures
            final(game).wf(),
            final(game)@ == old(self).set_out(old(game)@, old(self).target_small_id),
            final(game)@.map == old(game)@.map,
            start == old(self).opening(old(game)@),
            -MAX_ATTACK <= start <= MAX_ATTACK,
            final(self).attack_id@ == old(self).drawn_id(old(game)@),
            *final(self) == (AttackExecution { attack_id: final(self).attack_id, ..*old(self) }),
    {
        reveal(AttackExecution::set_out);
        let owner: u16 = self.owner_small_id;
        let most: i64 = game.troops_of(owner) * TROOP_SCALE;
        let asked: i64 = match self.start_troops {
            Some(t) => t,
            None => game.attack_amount(owner),
        };
        let start: i64 = crate::game_attacks::swell(
            0,
            if self.remove_troops && most < asked {
                most
            } else {
                asked
            },
        );
        if self.remove_troops {
            game.remove_troops(owner, start);
        }
        game.adjust_attacks_sent(owner, start);
        let id = game.draw_attack_id(owner);
        self.attack_id = id.clone();
        let attack = LandAttack {
            id,
            attacker: owner,
            target: self.target_small_id,
            troops: start,
            from_sea: self.source_tile.is_some(),
            retreating: false,
            retreated: false,
        };
        game.register_land_attack(attack);
        start
    }

    /// Lets the others of its owner that go to the same place join the attack.
    fn join(&mut self, game: &mut Game)
        requires
            old(game).wf(),
            -MAX_ATTACK <= old(self).troops <= MAX_ATTACK,
        ensures
            final(game).wf(),
            ({
                let (after, sum) = joined(
                    old(game)@,
                    old(self).owner_small_id,
                    old(self).target_small_id,
                    old(self).attack_id@,
                    old(self).troops as int,
                    old(self).source_tile is Some,
                );
                &&& final(game)@ == after
                &&& final(self).troops == sum
            }),
            *final(self) == (AttackExecution { troops: final(self).troops, ..*old(self) }),
            final(game)@.map == old(game)@.map,
            final(game)@.config == old(game)@.config,
            -MAX_ATTACK <= final(self).troops <= MAX_ATTACK,
    {
        reveal(joined);
        let owner: u16 = self.owner_small_id;
        if self.source_tile.is_none() {
            self.troops = game.merge_outgoing_land_attacks(
                owner,
                self.target_small_id,
                &self.attack_id,
                self.troops,
            );
        }
        game.set_attack_troops(owner, &self.attack_id, self.troops);
    }

    /// Lets the attack meet what is in its way and take in the others that go there.
    fn engage(&mut self, game: &mut Game, start: i64)
        requires
            old(game).wf(),
            -MAX_ATTACK <= start <= MAX_ATTACK,
            old(self).target_is_player == old(self).target_player_id is Some,
        ensures
            final(game).wf(),
            final(game)@ == old(self).engaged(
                old(game)@,
                old(self).target_small_id,
                old(self).attack_id@,
                start as int,
            ),
            final(game)@.map == old(game)@.map,
            -MAX_ATTACK <= final(self).troops <= MAX_ATTACK,
            *final(self) == (AttackExecution {
                troops: old(self).strength(
                    old(game)@,
                    old(self).target_small_id,
                    old(self).attack_id@,
                    start as int,
                ) as i64,
                active: old(self).active && old(self).meeting(
                    old(game)@,
                    old(self).target_small_id,
                    start as int,
                ).goes_on,
                ..*old(self)
            }),
    {
        let owner: u16 = self.owner_small_id;
        let target: u16 = self.target_small_id;
        let (left, goes_on) = game.cancel_opposing_land_attacks(owner, target, start);
        self.troops = left;
        if !goes_on {
            self.active = false;
            game.unregister_land_attack(owner, &self.attack_id);
            return;
        }
        self.join(game);
        if self.target_is_player {
            let delta: i32 = match game.wire.difficulty {
                Difficulty::Easy => -60,
                Difficulty::Hard => -80,
                Difficulty::Impossible => -100,
                _ => -70,
            };
            game.update_relation(target, owner, delta);
        }
    }

    /// Begins the attack against the target that was found for it.
    fn launch(&mut self, game: &mut Game)
        requires
            old(game).wf(),
            old(self).ready(old(game)@),
            old(game)@.has(old(self).owner_small_id),
            old(self).active,
            old(self).target_is_player == old(self).target_player_id is Some,
        ensures
            final(game).wf(),
            final(self).ready(final(game)@),
            final(game)@ == old(self).launched(old(game)@, old(self).target_small_id),
            final(self).launched_from(*old(self), old(game)@),
    {
        let start: i64 = self.send_out(game);
        match self.source_tile {
            Some(src) => {
                let now: u32 = game.ticks();
                self.add_neighbors(game, src, now);
            },
            None => {
                self.refresh_to_conquer(game);
            },
        }
        self.engage(game, start);
    }

    /// Whether this is the state of an attack that has just begun, given its state before.
    pub open spec fn launched_from(&self, before: AttackExecution, game: GameView) -> bool {
        let target = before.target_small_id;
        let id = before.drawn_id(game);
        let start = before.opening(game);
        let out = before.set_out(game, target);
        &&& self.front() == before.first_front(out, target)
        &&& self.attack_id@ == id
        &&& self.active == before.meeting(out, target, start).goes_on
        &&& self.troops == before.strength(out, target, id, start) as i64
        &&& self.same_course(&before)
    }

    /// Whether another state of the attack differs in its front, troops, id and liveness at
    /// most.
    pub open spec fn same_course(&self, other: &AttackExecution) -> bool {
        self.owner_small_id == other.owner_small_id && self.target_player_id
            == other.target_player_id && self.start_troops == other.start_troops
            && self.target_small_id == other.target_small_id && self.target_is_player
            == other.target_is_player && self.source_tile == other.source_tile
            && self.remove_troops == other.remove_troops && self.retreating == other.retreating
            && self.retreated == other.retreated && self.attack_live == other.attack_live
            && self.initialized == other.initialized && self.fighting == other.fighting
    }

    /// The execution with the target that was found for it.
    pub open spec fn aimed(&self, game: GameView) -> AttackExecution {
        AttackExecution {
            initialized: true,
            target_is_player: self.target_player_id is Some,
            target_small_id: self.aim(game)->0,
            ..*self
        }
    }

    /// What a tick does to the attack.
    pub open spec fn turn(&self, game: GameView) -> AttackTurn {
        if !self.active || !self.initialized {
            AttackTurn::Idle
        } else {
            match self.standing(game) {
                None => AttackTurn::Stop,
                Some((troops, retreating, retreated)) => if retreated {
                    AttackTurn::Return { malus: self.malus() }
                } else if retreating {
                    AttackTurn::Idle
                } else if self.target_is_player && game.is_friendly(
                    self.owner_small_id,
                    self.target_small_id,
                ) {
                    AttackTurn::Return { malus: 0 }
                } else {
                    AttackTurn::Fight
                },
            }
        }
    }
}

/// What a tick does to an attack.
pub ghost enum AttackTurn {
    Idle,
    /// The attack is no more.
    Stop,
    /// The attack comes home; this part of its troops, in percent, does not.
    Return { malus: int },
    Fight,
}

impl Execution for AttackExecution {
    open spec fn ready(&self, game: GameView) -> bool {
        &&& self.wf()
        &&& -MAX_ATTACK <= self.troops <= MAX_ATTACK
        &&& self.front().on_map(game.map)
        &&& self.source_tile is Some ==> game.map.valid(self.source_tile->0)
    }

    open spec fn begun(&self, game: GameView, tick: u32) -> GameView {
        if !self.active || self.initialized || self.is_refused(game) {
            game
        } else if !self.begins(game, tick) {
            self.alarmed(game, tick)
        } else {
            self.aimed(game).launched(self.alarmed(game, tick), self.aim(game)->0)
        }
    }

    open spec fn ticked(&self, game: GameView, tick: u32) -> GameView {
        match self.turn(game) {
            AttackTurn::Return { malus } => self.returned(
                game,
                (self.standing(game)->0).0,
                malus,
                (self.standing(game)->0).2,
            ),
            _ => game,
        }
    }

    open spec fn begun_as(&self, game: GameView, tick: u32, next: Self) -> bool {
        &&& !self.active || self.initialized ==> next == *self
        &&& self.active && !self.initialized ==> {
            let alarmed = self.alarmed(game, tick);
            &&& next.initialized
            &&& !self.begins(game, tick) ==> next == (AttackExecution {
                initialized: true,
                active: false,
                ..*self
            })
            &&& self.begins(game, tick) ==> next.launched_from(
                self.aimed(game),
                alarmed,
            )
        }
    }

    open spec fn ticked_as(&self, game: GameView, tick: u32, next: Self) -> bool {
        next == (match self.turn(game) {
            AttackTurn::Idle => *self,
            AttackTurn::Stop => AttackExecution { active: false, ..*self },
            AttackTurn::Return { malus } => AttackExecution {
                troops: 0,
                attack_live: false,
                active: false,
                ..*self
            },
            AttackTurn::Fight => AttackExecution {
                fighting: true,
                troops: (self.standing(game)->0).0 as i64,
                ..*self
            },
        })
    }

    open spec fn going(&self) -> bool {
        self.active
    }

    fn init(&mut self, game: &mut Game, tick: u32) {
        if !self.active || self.initialized {
            return;
        }
        self.initialized = true;
        let owner: u16 = self.owner_small_id;
        if game.in_spawn_phase() || game.player_by_small_id(owner).is_none() {
            self.active = false;
            return;
        }
        match &self.target_player_id {
            Some(id) => {
                let found: Option<u16> = game.small_id_of(id);
                let target: u16 = match found {
                    Some(target) => target,
                    None => {
                        self.active = false;
                        return;
                    },
                };
                if game.is_friendly(owner, target) {
                    self.active = false;
                    return;
                }
                if !game.is_of_type(owner, PlayerType::Bot) && !game.is_of_type(target, PlayerType::Bot) {
                    game.add_embargo(target, owner, true, tick);
                    game.reject_alliance_request(target, owner);
                }
                if !game.can_attack_player(owner, target) {
                    self.active = false;
                    return;
                }
                self.target_is_player = true;
                self.target_small_id = target;
            },
            None => {
                self.target_is_player = false;
                self.target_small_id = 0;
            },
        }
        self.launch(game);
    }

    fn tick(&mut self, game: &mut Game, tick: u32) {
        if !self.active || !self.initialized {
            return;
        }
        let state: Option<(i64, bool, bool)> = if !self.attack_live {
            None
        } else if self.attack_id.as_str().unicode_len() == 0 {
            Some((self.troops, self.retreating, self.retreated))
        } else {
            match game.attack_state(self.owner_small_id, &self.attack_id) {
                Some((troops, retreating, retreated)) => Some(
                    (troops, self.retreating || retreating, self.retreated || retreated),
                ),
                None => None,
            }
        };
        match state {
            None => {
                self.active = false;
            },
            Some((troops, retreating, retreated)) => {
                if retreated {
                    let malus: i64 = if self.target_is_player {
                        RETREAT_MALUS_PERCENT
                    } else {
                        0
                    };
                    self.retreat(game, troops, malus, true);
                } else if retreating {
                } else if self.target_is_player && game.is_friendly(
                    self.owner_small_id,
                    self.target_small_id,
                ) {
                    self.retreat(game, troops, 0, false);
                } else {
                    self.troops = troops;
                    self.fighting = true;
                }
            },
        }
    }

    fn is_active(&self) -> (active: bool) {
        self.active
    }
}

} // verus!
