//! Volleys of atom bombs that overwhelm an enemy's SAM launchers.

use vstd::prelude::*;

use crate::ai_forces::should_attack;
use crate::config::{is_within_sam_range, Difficulty};
use crate::exec_enum::ExecEnum;
use crate::game::{Game, GameView};
use crate::nation_emoji::{Mind, NationEmojiState};
use crate::nuke_ai::{
    arsenal, is_trajectory_interceptable_by_sam, send_nuke, Arsenal, NationNukeState, NukeMemory,
};
use crate::nuke_execution::is_path_blocked;
use crate::ordered_tiles::TileRef;
use crate::orders::{Order, UpgradeStructureExecution};
use crate::prng::PseudoRandom;
use crate::state::{PlayerType, Unit};
use crate::unit_type::UnitType;

verus! {

/// Nations do not raise silos above this level.
pub const MAX_NATION_SILO_UPGRADE_LEVEL: i32 = 5;

/// A silo that can take part in a volley.
#[derive(Clone, Copy, Debug, PartialEq, Eq, Structural)]
pub struct Bay {
    pub tile: TileRef,
    /// How many missiles it has ready.
    pub slots: u32,
    /// How many ticks they fly.
    pub flight: usize,
    /// Whether other SAM launchers could shoot them down.
    pub interceptable: bool,
}

/// A bomb of a volley: how long it flies, and whether it could be shot down on its way.
pub type Bomb = (usize, bool);

/// The bombs of the first `bays`, silo by silo.
pub open spec fn bombs_of(bays: Seq<Bay>) -> Seq<Bomb>
    decreases bays.len(),
{
    if bays.len() == 0 {
        Seq::empty()
    } else {
        let b = bays.last();
        bombs_of(bays.drop_last()) + Seq::new(b.slots as nat, |i: int| (b.flight, b.interceptable))
    }
}

/// The positions and flight times of those of the first `n` bombs that get through.
pub open spec fn through(bombs: Seq<Bomb>, n: int) -> Seq<(usize, usize)>
    decreases n,
{
    if n <= 0 {
        Seq::empty()
    } else if bombs[n - 1].1 {
        through(bombs, n - 1)
    } else {
        through(bombs, n - 1).push(((n - 1) as usize, bombs[n - 1].0))
    }
}

pub open spec fn by_flight() -> spec_fn((usize, usize)) -> (i64, (usize, usize)) {
    |b: (usize, usize)| (b.1 as i64, b)
}

pub open spec fn by_index() -> spec_fn((usize, usize)) -> (i64, (usize, usize)) {
    |b: (usize, usize)| (b.0 as i64, b)
}

/// Bombs in the order of their flight times.
pub open spec fn flight_order(bombs: Seq<(usize, usize)>) -> Seq<(usize, usize)> {
    crate::lists::payloads(crate::lists::sort_by_key(bombs.map_values(by_flight())))
}

/// Bombs in the order in which they are launched.
pub open spec fn launch_order(bombs: Seq<(usize, usize)>) -> Seq<(usize, usize)> {
    crate::lists::payloads(crate::lists::sort_by_key(bombs.map_values(by_index())))
}

/// The end of the run of bombs from `start` whose flight times differ by `spread` at most.
pub open spec fn run_end(bombs: Seq<(usize, usize)>, start: int, end: int, spread: int) -> int
    decreases bombs.len() - end,
{
    if end < bombs.len() && bombs[end].1 - bombs[start].1 <= spread {
        run_end(bombs, start, end + 1, spread)
    } else {
        end
    }
}

/// Where the longest run begins that begins before `n`, and its length.
pub open spec fn longest_run(bombs: Seq<(usize, usize)>, spread: int, n: int) -> (int, int)
    decreases n,
{
    if n <= 0 {
        (0, 0)
    } else {
        let (start, length) = longest_run(bombs, spread, n - 1);
        let end = run_end(bombs, n - 1, n - 1, spread);
        if end - (n - 1) > length {
            (n - 1, end - (n - 1))
        } else {
            (start, length)
        }
    }
}

/// The bombs of the longest run, in the order in which they are launched.
pub open spec fn run_bombs(bombs: Seq<(usize, usize)>, spread: int) -> Seq<(usize, usize)> {
    let (start, length) = longest_run(bombs, spread, bombs.len() as int);
    launch_order(bombs.subrange(start, start + length))
}

/// The shortest flight time of bombs.
pub open spec fn least_flight(bombs: Seq<(usize, usize)>) -> int
    decreases bombs.len(),
{
    if bombs.len() <= 1 {
        bombs[0].1 as int
    } else if bombs.last().1 < least_flight(bombs.drop_last()) {
        bombs.last().1 as int
    } else {
        least_flight(bombs.drop_last())
    }
}

/// How long each of the first `n` bombs waits, and how many of `chosen` are among them.
/// The chosen ones arrive `interval` apart; the others do not wait.
pub open spec fn waits(
    bombs: Seq<Bomb>,
    chosen: Seq<(usize, usize)>,
    interval: int,
    n: int,
) -> (Seq<u32>, int)
    decreases n,
{
    if n <= 0 {
        (Seq::empty(), 0)
    } else {
        let (held, k) = waits(bombs, chosen, interval, n - 1);
        if k < chosen.len() && chosen[k].0 == n - 1 {
            let wait = least_flight(chosen) + k * interval - bombs[n - 1].0;
            (held.push(
                if wait < 0 {
                    0u32
                } else {
                    wait as u32
                },
            ), k + 1)
        } else {
            (held.push(0u32), k)
        }
    }
}

/// Maps units to their ids.
pub open spec fn id_of_unit() -> spec_fn(Unit) -> i32 {
    |u: Unit| u.id
}

/// The bombs that get through are bombs.
proof fn lemma_through(bombs: Seq<Bomb>, n: int)
    requires
        0 <= n <= bombs.len(),
        bombs.len() <= usize::MAX,
    ensures
        forall|b: (usize, usize)| #[trigger] through(bombs, n).contains(b) ==> b.0 < n,
    decreases n,
{
    if n > 0 {
        lemma_through(bombs, n - 1);
        assert forall|b: (usize, usize)| #[trigger] through(bombs, n).contains(b) implies b.0
            < n by {
            let held = through(bombs, n - 1);
            if !held.contains(b) {
                let i = choose|i: int| 0 <= i < through(bombs, n).len() && through(bombs, n)[i] == b;
                if i < held.len() {
                    assert(held[i] == b);
                }
            }
        }
    }
}

/// Bombs in another order are the same bombs.
proof fn lemma_flight_order(bombs: Seq<(usize, usize)>)
    ensures
        forall|b: (usize, usize)|
            #[trigger] flight_order(bombs).contains(b) ==> bombs.contains(b),
{
    crate::lists::lemma_sorted_members(bombs, by_flight());
}

/// The bombs of a run are among the bombs.
proof fn lemma_run_members(bombs: Seq<(usize, usize)>, spread: int)
    requires
        bombs.len() <= usize::MAX,
    ensures
        forall|b: (usize, usize)|
            #[trigger] run_bombs(bombs, spread).contains(b) ==> bombs.contains(b),
{
    let (start, length) = longest_run(bombs, spread, bombs.len() as int);
    lemma_longest_run(bombs, spread, bombs.len() as int);
    let window = bombs.subrange(start, start + length);
    crate::lists::lemma_sorted_members(window, by_index());
    assert forall|b: (usize, usize)| #[trigger]
        run_bombs(bombs, spread).contains(b) implies bombs.contains(b) by {
        assert(window.contains(b));
        let i = choose|i: int| 0 <= i < window.len() && window[i] == b;
        assert(bombs[start + i] == b);
    }
}

proof fn lemma_run_end(bombs: Seq<(usize, usize)>, start: int, end: int, spread: int)
    requires
        0 <= start <= end <= bombs.len(),
    ensures
        end <= run_end(bombs, start, end, spread) <= bombs.len(),
    decreases bombs.len() - end,
{
    if end < bombs.len() && bombs[end].1 - bombs[start].1 <= spread {
        lemma_run_end(bombs, start, end + 1, spread);
    }
}

proof fn lemma_longest_run(bombs: Seq<(usize, usize)>, spread: int, n: int)
    requires
        0 <= n <= bombs.len(),
    ensures
        ({
            let (start, length) = longest_run(bombs, spread, n);
            0 <= start && 0 <= length && start + length <= bombs.len()
        }),
    decreases n,
{
    if n > 0 {
        lemma_longest_run(bombs, spread, n - 1);
        lemma_run_end(bombs, n - 1, n - 1, spread);
    }
}

/// What a nation makes of an enemy's SAM launcher.
pub enum Volley {
    /// It has too few bombs that would get through in time; it takes `total`.
    Lacking { total: int },
    /// Bombs with these waiting times overwhelm it.
    Ready { waits: Seq<u32> },
}

impl GameView {
    /// Silos of a player from which a bomb can be sent at `tile` now.
    pub open spec fn open_bay(self, sid: u16, tile: TileRef) -> spec_fn(Unit) -> bool {
        |u: Unit|
            u.owner == sid && u.unit_type == UnitType::MissileSilo && !u.under_construction
                && u.level > self.launches_of(u.id).len() && !self.blocked(
                u.tile,
                tile,
                self.config.nuke_speed as int,
                true,
                true,
            )
    }

    /// The bay that a silo is, with how far it is from `tile`.
    pub open spec fn bay(self, sid: u16, tile: TileRef, ignored: Seq<i32>) -> spec_fn(Unit) -> (
        i64,
        Bay,
    ) {
        |u: Unit|
            (
                self.map.manhattan(u.tile, tile) as i64,
                Bay {
                    tile: u.tile,
                    slots: (u.level - self.launches_of(u.id).len()) as u32,
                    flight: self.map.flight(
                        u.tile,
                        tile,
                        self.config.nuke_speed as int,
                        true,
                        true,
                    ).len() as usize,
                    interceptable: self.interceptable(sid, u.tile, tile, ignored),
                },
            )
    }

    /// The bays for a volley at `tile`, the nearest first.
    pub open spec fn bays(self, sid: u16, tile: TileRef, ignored: Seq<i32>) -> Seq<Bay> {
        crate::lists::payloads(
            crate::lists::sort_by_key(
                self.units.filter(self.open_bay(sid, tile)).map_values(
                    self.bay(sid, tile, ignored),
                ),
            ),
        )
    }

    /// The SAM launchers of enemies that reach a tile, oldest first.
    pub open spec fn guards(self, sid: u16, tile: TileRef) -> Seq<Unit> {
        self.units.filter(self.covering(sid, tile))
    }

    pub open spec fn guard_ids(self, sid: u16, tile: TileRef) -> Seq<i32> {
        self.guards(sid, tile).map_values(id_of_unit())
    }

    /// How many bombs a volley takes: one more than can be shot down, and a fifth for good
    /// measure.
    pub open spec fn volley_size(self, sid: u16, tile: TileRef) -> int {
        let needed = crate::game_units::level_sum(self.guards(sid, tile)) + 1;
        needed + needed / 5
    }

    /// How far apart the bombs of a volley may arrive.
    pub open spec fn arrival_spread(self) -> int {
        self.config.sam_cooldown as int / 2
    }

    pub open spec fn arrival_interval(self, total: int) -> int {
        if self.arrival_spread() / total < 1 {
            1
        } else {
            self.arrival_spread() / total
        }
    }

    /// The volley of a nation at a SAM launcher on `tile`.
    #[verifier::opaque]
    pub open spec fn volley(self, sid: u16, tile: TileRef) -> Volley {
        let total = self.volley_size(sid, tile);
        let bombs = bombs_of(self.bays(sid, tile, self.guard_ids(sid, tile)));
        let free = through(bombs, bombs.len() as int);
        let run = run_bombs(flight_order(free), self.arrival_spread());
        if free.len() < total || run.len() < total {
            Volley::Lacking { total }
        } else {
            let chosen = run.take(total);
            Volley::Ready {
                waits: waits(
                    bombs,
                    chosen,
                    self.arrival_interval(total),
                    chosen.last().0 + 1,
                ).0,
            }
        }
    }

    /// SAM launchers with their level, the lowest first.
    pub open spec fn by_level() -> spec_fn(Unit) -> (i64, Unit) {
        |u: Unit| (u.level as i64, u)
    }

    /// The SAM launchers of a player, the lowest level first.
    pub open spec fn sams_by_level(self, sid: u16) -> Seq<Unit> {
        crate::lists::payloads(
            crate::lists::sort_by_key(
                self.units_of(sid, UnitType::SamLauncher).map_values(GameView::by_level()),
            ),
        )
    }

    /// Whether a nation can pay for the bombs of a volley.
    pub open spec fn affords(self, sid: u16, n: int) -> bool {
        self.gold(sid) >= self.cost(sid, UnitType::AtomBomb) * n
    }

    /// The first of `sams` that a volley is sent at.
    pub open spec fn volley_target(self, sid: u16) -> spec_fn(Unit) -> bool {
        |u: Unit|
            match self.volley(sid, u.tile) {
                Volley::Ready { waits } => self.affords(sid, waits.len() as int),
                Volley::Lacking { .. } => false,
            }
    }

    /// SAM launchers for which a nation lacks bombs.
    pub open spec fn out_of_bombs(self, sid: u16) -> spec_fn(Unit) -> bool {
        |u: Unit| self.volley(sid, u.tile) is Lacking
    }

    /// Whether a player can raise a unit's level.
    pub open spec fn can_upgrade(self, sid: u16, id: i32) -> bool {
        match self.unit(sid, id) {
            Some(u) => u.unit_type.upgradable() && !u.under_construction && !self.config.disabled(
                u.unit_type,
            ) && self.gold(sid) >= self.cost(sid, u.unit_type),
            None => false,
        }
    }

    /// The levels of the SAM launchers that protect a tile, added up.
    pub open spec fn protection(self, tile: TileRef, sams: Seq<Unit>) -> int
        decreases sams.len(),
    {
        if sams.len() == 0 {
            0
        } else {
            self.protection(tile, sams.drop_last()) + (if crate::config::within_sam_range(
                self.map.dist2(tile, sams.last().tile),
                sams.last().level as int,
            ) {
                sams.last().level as int
            } else {
                0
            })
        }
    }

    /// The silo of `silos` to upgrade, with its protection: the best protected of those
    /// that can be.
    pub open spec fn silo_to_upgrade(self, sid: u16, silos: Seq<Unit>) -> (Option<i32>, int)
        decreases silos.len(),
    {
        if silos.len() == 0 {
            (None, -1)
        } else {
            let (best, most) = self.silo_to_upgrade(sid, silos.drop_last());
            let u = silos.last();
            let here = self.protection(u.tile, self.units_of(sid, UnitType::SamLauncher));
            if u.level < MAX_NATION_SILO_UPGRADE_LEVEL && self.can_upgrade(sid, u.id) && here > most {
                (Some(u.id), here)
            } else {
                (best, most)
            }
        }
    }

    /// Silos from which a bomb gets through to `tile`.
    pub open spec fn helpful_silo(self, sid: u16, tile: TileRef, ignored: Seq<i32>) -> spec_fn(
        Unit,
    ) -> bool {
        |u: Unit|
            !self.interceptable(sid, u.tile, tile, ignored) && !self.blocked(
                u.tile,
                tile,
                self.config.nuke_speed as int,
                true,
                true,
            )
    }

    /// The game after a nation that lacks bombs for a volley at `tile` had a silo upgraded,
    /// where enough bombs could ever be had.
    pub open spec fn preparing(self, sid: u16, tile: TileRef) -> GameView {
        let silos = self.units_of(sid, UnitType::MissileSilo).filter(
            self.helpful_silo(sid, tile, self.guard_ids(sid, tile)),
        );
        if silos.len() == 0 || silos.len() * MAX_NATION_SILO_UPGRADE_LEVEL < self.volley_size(
            sid,
            tile,
        ) {
            self
        } else {
            match self.silo_to_upgrade(sid, silos).0 {
                Some(id) => self.ordering(Order::UpgradeStructure { small_id: sid, unit_id: id }),
                None => self,
            }
        }
    }
}

impl Arsenal {
    /// After the first `n` bombs of a volley were sent.
    pub open spec fn firing(self, sid: u16, tile: TileRef, target: u16, waits: Seq<u32>, n: nat) -> Arsenal
        decreases n,
    {
        if n == 0 {
            self
        } else {
            self.firing(sid, tile, target, waits, (n - 1) as nat).sending(
                sid,
                tile,
                UnitType::AtomBomb,
                target,
                waits[n - 1],
            )
        }
    }

    /// After a nation sent a volley at one of the target's SAM launchers, or prepared for
    /// one.
    pub open spec fn striking_sams(self, sid: u16, target: u16) -> Arsenal {
        let game = self.mind.game;
        let sams = game.sams_by_level(target);
        if game.config.disabled(UnitType::AtomBomb) || game.units_of(sid, UnitType::AtomBomb).len() > 0
            || !game.has_open_silo(sid) {
            self
        } else {
            match crate::lists::first_where(sams, game.volley_target(sid)) {
                Some(u) => {
                    let waits = game.volley(sid, u.tile)->waits;
                    self.firing(sid, u.tile, target, waits, waits.len())
                },
                None => match crate::lists::first_where(sams, game.out_of_bombs(sid)) {
                    Some(u) => Arsenal {
                        mind: Mind { game: game.preparing(sid, u.tile), ..self.mind },
                        ..self
                    },
                    None => self,
                },
            }
        }
    }

    /// After a nation chose among tiles where to send a nuke of this kind.
    pub open spec fn bombing(self, sid: u16, target: u16, nuke: UnitType) -> Arsenal {
        let game = self.mind.game;
        let (tiles, rng) = game.nuke_spots(self.mind.rng, target);
        let recent = crate::nuke_ai::remembered(self.memory.recent, game.tick);
        let a = Arsenal {
            mind: Mind { rng, ..self.mind },
            memory: NukeMemory { recent, ..self.memory },
        };
        let (best, score) = game.best_spot(sid, target, nuke, recent, tiles);
        if best is Some && (score > 0 || game.config.difficulty != Difficulty::Impossible) {
            a.sending(sid, best->0, nuke, target, 0)
        } else if game.config.difficulty == Difficulty::Impossible {
            a.striking_sams(sid, target)
        } else {
            a
        }
    }

    /// After a nation sent a nuke, where it had a reason and the means.
    pub open spec fn nuking(self, sid: u16, hydro: bool) -> Arsenal {
        let game = self.mind.game;
        if game.silo_tiles(sid).len() == 0 || game.config.disabled(UnitType::MissileSilo) || (
        game.config.disabled(UnitType::AtomBomb) && game.config.disabled(UnitType::HydrogenBomb)) {
            self
        } else {
            let (target, rng) = game.nuke_target(self.mind.rng, sid);
            let a = Arsenal { mind: Mind { rng, ..self.mind }, ..self };
            match target {
                None => a,
                Some(t) => if game.of_type(t, PlayerType::Bot) || game.on_same_team(sid, t) {
                    a
                } else {
                    let (willing, rng) = game.willing(rng, sid, t, false);
                    let a = Arsenal { mind: Mind { rng, ..self.mind }, ..self };
                    match game.nuke_choice(sid, self.memory, hydro) {
                        Some(nuke) => if willing {
                            a.bombing(sid, t, nuke)
                        } else {
                            a
                        },
                        None => a,
                    }
                },
            }
        }
    }
}

impl GameView {
    /// Whether a player has a silo that is built.
    pub open spec fn has_open_silo(self, sid: u16) -> bool {
        exists|i: int|
            0 <= i < self.units.len() && (#[trigger] self.units[i]).owner == sid
                && self.units[i].unit_type == UnitType::MissileSilo
                && !self.units[i].under_construction
    }
}

/// The SAM launchers of enemies that reach a tile.
pub fn find_enemy_sams_covering_tile(game: &Game, small_id: u16, tile: TileRef) -> (sams: Vec<Unit>)
    requires
        game@.wf(),
        game@.map.valid(tile),
    ensures
        sams@ == game@.guards(small_id, tile),
        sams@.len() <= game@.units.len(),
        forall|i: int| 0 <= i < sams@.len() ==> (#[trigger] sams@[i]).wf(),
{
    let ghost p = game@.covering(small_id, tile);
    let mut sams: Vec<Unit> = Vec::new();
    assert(game.units@.take(0).filter(p) =~= Seq::empty()) by {
        reveal(Seq::filter);
    }
    for i in 0..game.units.len()
        invariant
            game@.wf(),
            game@.map.valid(tile),
            p == game@.covering(small_id, tile),
            sams@ == game.units@.take(i as int).filter(p),
            sams@.len() <= i,
            forall|k: int| 0 <= k < sams@.len() ==> (#[trigger] sams@[k]).wf(),
    {
        let u: Unit = game.units[i];
        proof {
            crate::lists::lemma_filter_step(game.units@, p, i as int);
            assert(game@.units[i as int] == u);
        }
        if crate::nuke_ai::does_cover(game, small_id, tile, u) {
            sams.push(u);
        }
    }
    proof {
        crate::lists::lemma_take_all(game.units@);
    }
    sams
}

fn ids_of(units: &Vec<Unit>) -> (ids: Vec<i32>)
    ensures
        ids@ == units@.map_values(id_of_unit()),
{
    let ghost f = id_of_unit();
    let mut ids: Vec<i32> = Vec::new();
    for i in 0..units.len()
        invariant
            f == id_of_unit(),
            ids@ == units@.take(i as int).map_values(f),
    {
        ids.push(units[i].id);
        assert(units@.take(i + 1).map_values(f) =~= units@.take(i as int).map_values(f).push(
            f(units@[i as int]),
        ));
    }
    proof {
        crate::lists::lemma_take_all(units@);
    }
    ids
}

/// The bays for a volley, the nearest first.
fn find_bays(game: &Game, small_id: u16, tile: TileRef, ignored: &Vec<i32>) -> (bays: Vec<Bay>)
    requires
        game@.wf(),
        game@.map.valid(tile),
    ensures
        bays@ == game@.bays(small_id, tile, ignored@),
{
    let ghost p = game@.open_bay(small_id, tile);
    let ghost f = game@.bay(small_id, tile, ignored@);
    let speed: u32 = game.wire.nuke_speed;
    let mut keyed: Vec<(i64, Bay)> = Vec::new();
    assert(game.units@.take(0).filter(p).map_values(f) =~= Seq::empty()) by {
        reveal(Seq::filter);
    }
    for i in 0..game.units.len()
        invariant
            game@.wf(),
            game@.map.valid(tile),
            speed == game@.config.nuke_speed,
            p == game@.open_bay(small_id, tile),
            f == game@.bay(small_id, tile, ignored@),
            keyed@ == game.units@.take(i as int).filter(p).map_values(f),
    {
        let u: Unit = game.units[i];
        let ghost held = game.units@.take(i as int).filter(p);
        proof {
            crate::lists::lemma_filter_step(game.units@, p, i as int);
            assert(game@.units[i as int] == u);
        }
        if u.owner == small_id && u.unit_type == UnitType::MissileSilo && !u.under_construction {
            let used: usize = game.launches_of_unit(u.id).len();
            if u.level as usize > used && !is_path_blocked(game, u.tile, tile, speed, true, true) {
                let path = crate::parabola::find_path_tiles(
                    &game.map,
                    u.tile,
                    tile,
                    speed,
                    true,
                    true,
                );
                let bay = Bay {
                    tile: u.tile,
                    slots: (u.level as usize - used) as u32,
                    flight: path.len(),
                    interceptable: is_trajectory_interceptable_by_sam(
                        game,
                        small_id,
                        u.tile,
                        tile,
                        ignored,
                    ),
                };
                keyed.push((game.map.manhattan_dist(u.tile, tile) as i64, bay));
                assert(held.push(u).map_values(f) =~= held.map_values(f).push(f(u)));
            }
        }
    }
    proof {
        crate::lists::lemma_take_all(game.units@);
    }
    crate::lists::sorted_payloads(&keyed)
}

/// The bombs of the bays, silo by silo.
fn list_bombs(bays: &Vec<Bay>) -> (bombs: Vec<Bomb>)
    ensures
        bombs@ == bombs_of(bays@),
{
    let mut bombs: Vec<Bomb> = Vec::new();
    assert(bays@.take(0) =~= Seq::<Bay>::empty());
    for i in 0..bays.len()
        invariant
            bombs@ == bombs_of(bays@.take(i as int)),
    {
        assert(bays@.take(i + 1).drop_last() =~= bays@.take(i as int));
        let b: Bay = bays[i];
        let ghost held = bombs@;
        let ghost each = |k: int| (b.flight, b.interceptable);
        assert(held + Seq::new(0, each) =~= held);
        for k in 0..b.slots
            invariant
                each == (|k: int| (b.flight, b.interceptable)),
                bombs@ == held + Seq::new(k as nat, each),
        {
            bombs.push((b.flight, b.interceptable));
            assert(bombs@ =~= held + Seq::new((k + 1) as nat, each));
        }
        assert(bombs@ =~= bombs_of(bays@.take(i + 1)));
    }
    assert(bays@.take(bays@.len() as int) =~= bays@);
    bombs
}

/// The bombs that get through.
fn list_through(bombs: &Vec<Bomb>) -> (free: Vec<(usize, usize)>)
    ensures
        free@ == through(bombs@, bombs@.len() as int),
{
    let mut free: Vec<(usize, usize)> = Vec::new();
    for i in 0..bombs.len()
        invariant
            free@ == through(bombs@, i as int),
    {
        if !bombs[i].1 {
            free.push((i, bombs[i].0));
        }
    }
    free
}

fn order_by_flight(bombs: &Vec<(usize, usize)>) -> (sorted: Vec<(usize, usize)>)
    ensures
        sorted@ == flight_order(bombs@),
        sorted@.len() == bombs@.len(),
{
    let ghost f = by_flight();
    let mut keyed: Vec<(i64, (usize, usize))> = Vec::new();
    for i in 0..bombs.len()
        invariant
            f == by_flight(),
            keyed@ == bombs@.take(i as int).map_values(f),
    {
        keyed.push((bombs[i].1 as i64, bombs[i]));
        assert(bombs@.take(i + 1).map_values(f) =~= bombs@.take(i as int).map_values(f).push(
            f(bombs@[i as int]),
        ));
    }
    proof {
        crate::lists::lemma_take_all(bombs@);
        crate::lists::lemma_sort_by_key_len(keyed@);
    }
    crate::lists::sorted_payloads(&keyed)
}

fn order_by_index(bombs: &Vec<(usize, usize)>) -> (sorted: Vec<(usize, usize)>)
    ensures
        sorted@ == launch_order(bombs@),
        sorted@.len() == bombs@.len(),
{
    let ghost f = by_index();
    let mut keyed: Vec<(i64, (usize, usize))> = Vec::new();
    for i in 0..bombs.len()
        invariant
            f == by_index(),
            keyed@ == bombs@.take(i as int).map_values(f),
    {
        keyed.push((bombs[i].0 as i64, bombs[i]));
        assert(bombs@.take(i + 1).map_values(f) =~= bombs@.take(i as int).map_values(f).push(
            f(bombs@[i as int]),
        ));
    }
    proof {
        crate::lists::lemma_take_all(bombs@);
        crate::lists::lemma_sort_by_key_len(keyed@);
    }
    crate::lists::sorted_payloads(&keyed)
}

/// The bombs of the longest run, in the order in which they are launched.
fn find_run(bombs: &Vec<(usize, usize)>, spread: i128) -> (run: Vec<(usize, usize)>)
    requires
        0 <= spread <= u32::MAX,
    ensures
        run@ == run_bombs(bombs@, spread as int),
        run@.len() <= bombs@.len(),
{
    let mut best: usize = 0;
    let mut count: usize = 0;
    for start in 0..bombs.len()
        invariant
            0 <= spread <= u32::MAX,
            (best as int, count as int) == longest_run(bombs@, spread as int, start as int),
            best + count <= bombs@.len(),
    {
        let mut end: usize = start;
        while end < bombs.len() && bombs[end].1 as i128 - bombs[start].1 as i128 <= spread
            invariant
                0 <= spread <= u32::MAX,
                start <= end <= bombs@.len(),
                start < bombs@.len(),
                run_end(bombs@, start as int, start as int, spread as int) == run_end(
                    bombs@,
                    start as int,
                    end as int,
                    spread as int,
                ),
            decreases bombs@.len() - end,
        {
            end += 1;
        }
        if end - start > count {
            count = end - start;
            best = start;
        }
    }
    let mut window: Vec<(usize, usize)> = Vec::new();
    assert(bombs.len() <= usize::MAX);
    for i in 0..count
        invariant
            best + count <= bombs@.len() <= usize::MAX,
            window@ == bombs@.subrange(best as int, best + i),
    {
        window.push(bombs[best + i]);
        assert(window@ =~= bombs@.subrange(best as int, best + i + 1));
    }
    order_by_index(&window)
}

fn shortest_flight(bombs: &Vec<(usize, usize)>) -> (least: usize)
    requires
        bombs@.len() > 0,
    ensures
        least == least_flight(bombs@),
{
    let mut least: usize = bombs[0].1;
    assert(bombs@.take(1)[0] == bombs@[0]);
    for i in 1..bombs.len()
        invariant
            bombs@.len() > 0,
            least == least_flight(bombs@.take(i as int)),
    {
        assert(bombs@.take(i + 1).drop_last() =~= bombs@.take(i as int));
        if bombs[i].1 < least {
            least = bombs[i].1;
        }
    }
    assert(bombs@.take(bombs@.len() as int) =~= bombs@);
    least
}

/// How long each of the first `n` bombs waits.
fn list_waits(bombs: &Vec<Bomb>, chosen: &Vec<(usize, usize)>, interval: i128, n: usize) -> (held: Vec<
    u32,
>)
    requires
        chosen@.len() > 0,
        0 < interval <= u32::MAX,
        n <= bombs@.len(),
    ensures
        held@ == waits(bombs@, chosen@, interval as int, n as int).0,
        held@.len() == n,
{
    let least: i128 = shortest_flight(chosen) as i128;
    let mut held: Vec<u32> = Vec::new();
    let mut k: usize = 0;
    for i in 0..n
        invariant
            n <= bombs@.len(),
            0 < interval <= u32::MAX,
            least == least_flight(chosen@),
            0 <= least <= 0xffff_ffff_ffff_ffff,
            (held@, k as int) == waits(bombs@, chosen@, interval as int, i as int),
            k <= chosen@.len(),
            held@.len() == i,
    {
        if k < chosen.len() && chosen[k].0 == i {
            assert(0 <= k * interval <= 0xffff_ffff_ffff_ffff * 0xffff_ffff) by (nonlinear_arith)
                requires
                    0 <= k <= 0xffff_ffff_ffff_ffff,
                    0 <= interval <= 0xffff_ffff,
            ;
            let wait: i128 = least + k as i128 * interval - bombs[i].0 as i128;
            held.push(
                if wait < 0 {
                    0
                } else {
                    wait as u32
                },
            );
            k += 1;
        } else {
            held.push(0);
        }
    }
    held
}

/// What is known of a volley.
enum Plan {
    Lacking,
    Ready(Vec<u32>),
}

impl Plan {
    spec fn is_of(self, v: Volley) -> bool {
        match self {
            Plan::Lacking => v is Lacking,
            Plan::Ready(w) => v == (Volley::Ready { waits: w@ }),
        }
    }
}

fn count_for_volley(sams: &Vec<Unit>) -> (total: i128)
    requires
        forall|i: int| 0 <= i < sams@.len() ==> (#[trigger] sams@[i]).wf(),
    ensures
        total == crate::game_units::level_sum(sams@) + 1 + (crate::game_units::level_sum(sams@) + 1)
            / 5,
        1 <= total <= 0x1_0000_0000_0000_0000_0000,
{
    assert(sams.len() <= 0xffff_ffff_ffff_ffff);
    let needed: i128 = crate::game_units::total_level(sams) + 1;
    needed + needed / 5
}

/// The volley of a nation at a SAM launcher.
fn plan_volley(game: &Game, small_id: u16, tile: TileRef) -> (plan: Plan)
    requires
        game@.wf(),
        game@.map.valid(tile),
    ensures
        plan.is_of(game@.volley(small_id, tile)),
{
    reveal(GameView::volley);
    let guards = find_enemy_sams_covering_tile(game, small_id, tile);
    let ids = ids_of(&guards);
    let total: i128 = count_for_volley(&guards);
    let bays = find_bays(game, small_id, tile, &ids);
    let bombs = list_bombs(&bays);
    let free = list_through(&bombs);
    if (free.len() as i128) < total {
        return Plan::Lacking;
    }
    let spread: i128 = game.wire.sam_cooldown as i128 / 2;
    let sorted = order_by_flight(&free);
    let run = find_run(&sorted, spread);
    if (run.len() as i128) < total {
        return Plan::Lacking;
    }
    let n: usize = total as usize;
    let mut chosen: Vec<(usize, usize)> = Vec::new();
    for i in 0..n
        invariant
            n <= run@.len(),
            chosen@ == run@.take(i as int),
    {
        chosen.push(run[i]);
        assert(chosen@ =~= run@.take(i + 1));
    }
    let interval: i128 = if spread / total < 1 {
        1
    } else {
        spread / total
    };
    assert(spread / total <= spread) by (nonlinear_arith)
        requires
            total >= 1,
            spread >= 0,
    ;
    let last: usize = chosen[n - 1].0;
    assert(bombs.len() <= usize::MAX && sorted.len() <= usize::MAX);
    proof {
        lemma_through(bombs@, bombs@.len() as int);
        lemma_run_members(sorted@, spread as int);
        lemma_flight_order(free@);
        assert(run@.contains(chosen@[n - 1])) by {
            assert(run@[n - 1] == chosen@[n - 1]);
        }
    }
    let held = list_waits(&bombs, &chosen, interval, last + 1);
    Plan::Ready(held)
}

/// Whether a player can raise a unit's level.
pub fn can_upgrade_unit(game: &Game, small_id: u16, id: i32) -> (can: bool)
    requires
        game@.wf(),
    ensures
        can == game@.can_upgrade(small_id, id),
{
    match game.unit(small_id, id) {
        Some(u) => u.unit_type.is_upgradable_type() && !u.under_construction
            && !game.wire.is_unit_disabled(u.unit_type) && game.gold_of(small_id)
            >= game.structure_cost(small_id, u.unit_type),
        None => false,
    }
}

pub(crate) fn protection_of(game: &Game, tile: TileRef, sams: &Vec<Unit>) -> (sum: i128)
    requires
        game@.wf(),
        game@.map.valid(tile),
        forall|i: int|
            0 <= i < sams@.len() ==> (#[trigger] sams@[i]).wf() && game@.map.valid(sams@[i].tile),
    ensures
        sum == game@.protection(tile, sams@),
        0 <= sum <= 10_000 * 0xffff_ffff_ffff_ffff,
{
    let mut sum: i128 = 0;
    assert(sams.len() <= 0xffff_ffff_ffff_ffff);
    assert(sams@.take(0) =~= Seq::<Unit>::empty());
    for i in 0..sams.len()
        invariant
            game@.wf(),
            game@.map.valid(tile),
            sams@.len() <= 0xffff_ffff_ffff_ffff,
            forall|k: int|
                0 <= k < sams@.len() ==> (#[trigger] sams@[k]).wf() && game@.map.valid(
                    sams@[k].tile,
                ),
            sum == game@.protection(tile, sams@.take(i as int)),
            0 <= sum <= 10_000 * i,
    {
        assert(sams@.take(i + 1).drop_last() =~= sams@.take(i as int));
        let u: Unit = sams[i];
        assert(sams@[i as int] == u);
        if is_within_sam_range(game.map.euclidean_dist_squared(tile, u.tile), u.level) {
            sum = sum + u.level as i128;
        }
    }
    assert(sams@.take(sams@.len() as int) =~= sams@);
    sum
}

/// The best protected silo that can be upgraded.
fn find_silo_to_upgrade(game: &Game, small_id: u16, silos: &Vec<Unit>) -> (id: Option<i32>)
    requires
        game@.wf(),
        forall|i: int|
            0 <= i < silos@.len() ==> (#[trigger] silos@[i]).wf() && game@.map.valid(silos@[i].tile),
    ensures
        id == game@.silo_to_upgrade(small_id, silos@).0,
{
    let sams = game.units_of_type(small_id, UnitType::SamLauncher);
    let mut best: Option<i32> = None;
    let mut most: i128 = -1;
    assert(silos@.take(0) =~= Seq::<Unit>::empty());
    for i in 0..silos.len()
        invariant
            game@.wf(),
            sams@ == game@.units_of(small_id, UnitType::SamLauncher),
            forall|k: int|
                0 <= k < sams@.len() ==> (#[trigger] sams@[k]).wf() && game@.map.valid(
                    sams@[k].tile,
                ),
            forall|k: int|
                0 <= k < silos@.len() ==> (#[trigger] silos@[k]).wf() && game@.map.valid(
                    silos@[k].tile,
                ),
            (best, most as int) == game@.silo_to_upgrade(small_id, silos@.take(i as int)),
    {
        assert(silos@.take(i + 1).drop_last() =~= silos@.take(i as int));
        let u: Unit = silos[i];
        assert(silos@[i as int] == u);
        if u.level < MAX_NATION_SILO_UPGRADE_LEVEL && can_upgrade_unit(game, small_id, u.id) {
            let here: i128 = protection_of(game, u.tile, &sams);
            if here > most {
                best = Some(u.id);
                most = here;
            }
        }
    }
    assert(silos@.take(silos@.len() as int) =~= silos@);
    best
}

/// Has a silo upgraded that would help with a volley.
fn maybe_upgrade_helpful_silo(game: &mut Game, small_id: u16, failed_target_tile: TileRef)
    requires
        old(game).wf(),
        old(game)@.map.valid(failed_target_tile),
    ensures
        final(game).wf(),
        final(game)@ == old(game)@.preparing(small_id, failed_target_tile),
{
    let guards = find_enemy_sams_covering_tile(game, small_id, failed_target_tile);
    let ids = ids_of(&guards);
    let total: i128 = count_for_volley(&guards);
    let all = game.units_of_type(small_id, UnitType::MissileSilo);
    let game_now: &Game = game;
    let accepts = |u: Unit| -> (helpful: bool)
        requires
            game_now@.map.valid(u.tile),
        ensures
            helpful == game_now@.helpful_silo(small_id, failed_target_tile, ids@)(u),
        {
            !is_trajectory_interceptable_by_sam(
                game_now,
                small_id,
                u.tile,
                failed_target_tile,
                &ids,
            ) && !is_path_blocked(
                game_now,
                u.tile,
                failed_target_tile,
                game_now.wire.nuke_speed,
                true,
                true,
            )
        };
    let silos = crate::lists::filter_by(
        &all,
        accepts,
        Ghost(game_now@.helpful_silo(small_id, failed_target_tile, ids@)),
    );
    if silos.len() == 0 || (silos.len() as i128 * MAX_NATION_SILO_UPGRADE_LEVEL as i128) < total {
        return;
    }
    assert forall|i: int| 0 <= i < silos@.len() implies (#[trigger] silos@[i]).wf()
        && game@.map.valid(silos@[i].tile) by {
        assert(all@.contains(silos@[i]));
    }
    match find_silo_to_upgrade(game, small_id, &silos) {
        Some(id) => {
            game.add_execution(
                ExecEnum::UpgradeStructure(UpgradeStructureExecution::new(small_id, id)),
            );
        },
        None => {},
    }
}

/// Sends the bombs of a volley.
fn fire_volley(
    game: &mut Game,
    random: &mut PseudoRandom,
    small_id: u16,
    nuke_target: u16,
    tile: TileRef,
    held: &Vec<u32>,
    nuke_state: &mut NationNukeState,
    emoji_state: &mut NationEmojiState,
)
    requires
        old(game).wf(),
        old(game)@.map.valid(tile),
        old(nuke_state)@.wf(old(game)@.map),
    ensures
        final(game).wf(),
        final(nuke_state)@.wf(final(game)@.map),
        arsenal(*final(game), *final(random), *final(emoji_state), *final(nuke_state)) == arsenal(
            *old(game),
            *old(random),
            *old(emoji_state),
            *old(nuke_state),
        ).firing(small_id, tile, nuke_target, held@, held@.len()),
{
    let ghost start = arsenal(*game, *random, *emoji_state, *nuke_state);
    for i in 0..held.len()
        invariant
            game.wf(),
            game@.map.valid(tile),
            nuke_state@.wf(game@.map),
            arsenal(*game, *random, *emoji_state, *nuke_state) == start.firing(
                small_id,
                tile,
                nuke_target,
                held@,
                i as nat,
            ),
    {
        send_nuke(
            game,
            random,
            small_id,
            nuke_state,
            emoji_state,
            tile,
            UnitType::AtomBomb,
            nuke_target,
            held[i],
        );
    }
}

/// The SAM launchers of a player, the lowest level first.
fn sams_of(game: &Game, sid: u16) -> (sams: Vec<Unit>)
    requires
        game@.wf(),
    ensures
        sams@ == game@.sams_by_level(sid),
        forall|i: int| 0 <= i < sams@.len() ==> game@.map.valid((#[trigger] sams@[i]).tile),
{
    let units = game.units_of_type(sid, UnitType::SamLauncher);
    let ghost f = GameView::by_level();
    let mut keyed: Vec<(i64, Unit)> = Vec::new();
    for i in 0..units.len()
        invariant
            f == GameView::by_level(),
            keyed@ == units@.take(i as int).map_values(f),
    {
        keyed.push((units[i].level as i64, units[i]));
        assert(units@.take(i + 1).map_values(f) =~= units@.take(i as int).map_values(f).push(
            f(units@[i as int]),
        ));
    }
    proof {
        crate::lists::lemma_take_all(units@);
        crate::lists::lemma_sorted_members(units@, f);
    }
    let sams = crate::lists::sorted_payloads(&keyed);
    assert forall|i: int| 0 <= i < sams@.len() implies game@.map.valid(
        (#[trigger] sams@[i]).tile,
    ) by {
        assert(sams@.contains(sams@[i]));
        assert(units@.contains(sams@[i]));
    }
    sams
}

fn any_open_silo(game: &Game, sid: u16) -> (any: bool)
    ensures
        any == game@.has_open_silo(sid),
{
    for i in 0..game.units.len()
        invariant
            forall|k: int|
                0 <= k < i ==> !((#[trigger] game@.units[k]).owner == sid && game@.units[k].unit_type
                    == UnitType::MissileSilo && !game@.units[k].under_construction),
    {
        let u: Unit = game.units[i];
        assert(game@.units[i as int] == u);
        if u.owner == sid && u.unit_type == UnitType::MissileSilo && !u.under_construction {
            return true;
        }
    }
    false
}

/// Sends a volley at one of the target's SAM launchers, or prepares for one.
fn maybe_destroy_enemy_sam(
    game: &mut Game,
    random: &mut PseudoRandom,
    small_id: u16,
    nuke_target: u16,
    nuke_state: &mut NationNukeState,
    emoji_state: &mut NationEmojiState,
)
    requires
        old(game).wf(),
        old(nuke_state)@.wf(old(game)@.map),
    ensures
        final(game).wf(),
        final(nuke_state)@.wf(final(game)@.map),
        arsenal(*final(game), *final(random), *final(emoji_state), *final(nuke_state)) == arsenal(
            *old(game),
            *old(random),
            *old(emoji_state),
            *old(nuke_state),
        ).striking_sams(small_id, nuke_target),
{
    if game.wire.is_unit_disabled(UnitType::AtomBomb) {
        return;
    }
    if game.unit_count(small_id, UnitType::AtomBomb) > 0 {
        return;
    }
    if !any_open_silo(game, small_id) {
        return;
    }
    let sams = sams_of(game, nuke_target);
    let (volley, failed) = find_volley(game, small_id, &sams);
    match volley {
        Some((tile, held)) => {
            fire_volley(
                game,
                random,
                small_id,
                nuke_target,
                tile,
                &held,
                nuke_state,
                emoji_state,
            );
            return;
        },
        None => {},
    }
    match failed {
        Some(tile) => {
            maybe_upgrade_helpful_silo(game, small_id, tile);
        },
        None => {},
    }
}

/// The first volley that can be sent, and else the first SAM launcher for which bombs are
/// lacking.
fn find_volley(game: &Game, small_id: u16, sams: &Vec<Unit>) -> (found: (
    Option<(TileRef, Vec<u32>)>,
    Option<TileRef>,
))
    requires
        game@.wf(),
        forall|i: int| 0 <= i < sams@.len() ==> game@.map.valid((#[trigger] sams@[i]).tile),
    ensures
        match crate::lists::first_where(sams@, game@.volley_target(small_id)) {
            Some(u) => found.0 is Some && (found.0->0).0 == u.tile && game@.volley(
                small_id,
                u.tile,
            ) == (Volley::Ready { waits: (found.0->0).1@ }),
            None => found.0 is None && match crate::lists::first_where(
                sams@,
                game@.out_of_bombs(small_id),
            ) {
                Some(u) => found.1 == Some(u.tile),
                None => found.1 is None,
            },
        },
        found.0 is Some ==> game@.map.valid((found.0->0).0),
        found.1 is Some ==> game@.map.valid(found.1->0),
{
    let atom_cost: i128 = game.structure_cost(small_id, UnitType::AtomBomb) as i128;
    let gold: i128 = game.gold_of(small_id) as i128;
    let ghost hit = game@.volley_target(small_id);
    let ghost lacking = game@.out_of_bombs(small_id);
    let mut failed: Option<TileRef> = None;
    assert(sams@.skip(0) =~= sams@);
    for i in 0..sams.len()
        invariant
            game@.wf(),
            forall|k: int| 0 <= k < sams@.len() ==> game@.map.valid((#[trigger] sams@[k]).tile),
            hit == game@.volley_target(small_id),
            lacking == game@.out_of_bombs(small_id),
            atom_cost == game@.cost(small_id, UnitType::AtomBomb),
            0 <= atom_cost <= 1_000_000_000_000_000,
            gold == game@.gold(small_id),
            crate::lists::first_where(sams@, hit) == crate::lists::first_where(
                sams@.skip(i as int),
                hit,
            ),
            failed is Some ==> game@.map.valid(failed->0),
            match failed {
                Some(t) => crate::lists::first_where(sams@, lacking) is Some
                    && crate::lists::first_where(sams@, lacking)->0.tile == t,
                None => crate::lists::first_where(sams@, lacking) == crate::lists::first_where(
                    sams@.skip(i as int),
                    lacking,
                ),
            },
    {
        let u: Unit = sams[i];
        assert(sams@[i as int] == u);
        assert(hit(u) == (match game@.volley(small_id, u.tile) {
            Volley::Ready { waits } => game@.affords(small_id, waits.len() as int),
            Volley::Lacking { .. } => false,
        }));
        assert(lacking(u) == game@.volley(small_id, u.tile) is Lacking);
        match plan_volley(game, small_id, u.tile) {
            Plan::Lacking => {
                proof {
                    crate::lists::lemma_first_where_step(sams@, hit, i as int);
                }
                if failed.is_none() {
                    proof {
                        crate::lists::lemma_first_where_found(sams@, lacking, i as int);
                    }
                    failed = Some(u.tile);
                }
            },
            Plan::Ready(held) => {
                let n: i128 = held.len() as i128;
                assert(0 <= atom_cost * n <= 1_000_000_000_000_000 * 0xffff_ffff_ffff_ffff)
                    by (nonlinear_arith)
                    requires
                        0 <= atom_cost <= 1_000_000_000_000_000,
                        0 <= n <= 0xffff_ffff_ffff_ffff,
                ;
                if gold >= atom_cost * n {
                    proof {
                        crate::lists::lemma_first_where_found(sams@, hit, i as int);
                    }
                    return (Some((u.tile, held)), None);
                }
                proof {
                    crate::lists::lemma_first_where_step(sams@, hit, i as int);
                    if failed is None {
                        crate::lists::lemma_first_where_step(sams@, lacking, i as int);
                    }
                }
            },
        }
    }
    (None, failed)
}

/// Sends a nuke, where a nation has a reason and the means.
pub fn maybe_send_nuke(
    game: &mut Game,
    random: &mut PseudoRandom,
    small_id: u16,
    is_hydro_nation: bool,
    nuke_state: &mut NationNukeState,
    emoji_state: &mut NationEmojiState,
)
    requires
        old(game).wf(),
        old(nuke_state)@.wf(old(game)@.map),
    ensures
        final(game).wf(),
        final(nuke_state)@.wf(final(game)@.map),
        arsenal(*final(game), *final(random), *final(emoji_state), *final(nuke_state)) == arsenal(
            *old(game),
            *old(random),
            *old(emoji_state),
            *old(nuke_state),
        ).nuking(small_id, is_hydro_nation),
{
    if game.unit_count(small_id, UnitType::MissileSilo) == 0 || game.wire.is_unit_disabled(
        UnitType::MissileSilo,
    ) || (game.wire.is_unit_disabled(UnitType::AtomBomb) && game.wire.is_unit_disabled(
        UnitType::HydrogenBomb,
    )) {
        return;
    }
    let target: u16 = match crate::nuke_targets::find_best_nuke_target(game, random, small_id) {
        Some(target) => target,
        None => {
            return;
        },
    };
    if game.is_of_type(target, PlayerType::Bot) || game.players_on_same_team(small_id, target) {
        return;
    }
    if !should_attack(game, random, small_id, target, false) {
        return;
    }
    match crate::nuke_ai::choose_nuke(game, small_id, nuke_state, is_hydro_nation) {
        Some(nuke) => {
            bomb(game, random, small_id, target, nuke, nuke_state, emoji_state);
        },
        None => {},
    }
}

/// Sends a nuke of this kind at the best tile.
fn bomb(
    game: &mut Game,
    random: &mut PseudoRandom,
    small_id: u16,
    nuke_target: u16,
    nuke_type: UnitType,
    nuke_state: &mut NationNukeState,
    emoji_state: &mut NationEmojiState,
)
    requires
        old(game).wf(),
        old(nuke_state)@.wf(old(game)@.map),
    ensures
        final(game).wf(),
        final(nuke_state)@.wf(final(game)@.map),
        arsenal(*final(game), *final(random), *final(emoji_state), *final(nuke_state)) == arsenal(
            *old(game),
            *old(random),
            *old(emoji_state),
            *old(nuke_state),
        ).bombing(small_id, nuke_target, nuke_type),
{
    let tiles = crate::nuke_ai::spots_to_nuke(game, random, nuke_target);
    crate::nuke_ai::remove_old_nuke_events(game, nuke_state);
    let (best, score) = crate::nuke_ai::find_best_spot(
        game,
        small_id,
        nuke_target,
        nuke_type,
        &nuke_state.recently_sent_nukes,
        &tiles,
    );
    let impossible = game.wire.difficulty == Difficulty::Impossible;
    match best {
        Some(tile) => {
            if score > 0 || !impossible {
                send_nuke(
                    game,
                    random,
                    small_id,
                    nuke_state,
                    emoji_state,
                    tile,
                    nuke_type,
                    nuke_target,
                    0,
                );
                return;
            }
        },
        None => {},
    }
    if impossible {
        maybe_destroy_enemy_sam(game, random, small_id, nuke_target, nuke_state, emoji_state);
    }
}

} // verus!
