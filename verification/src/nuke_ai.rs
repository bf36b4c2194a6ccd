//! Where and when nations send nukes.

use vstd::prelude::*;

use crate::config::{is_within_sam_range, Difficulty, GameMode, TROOP_SCALE};
use crate::exec_enum::ExecEnum;
use crate::game::{Game, GameView};
use crate::map::MapView;
use crate::nation_emoji::{maybe_send_emoji, mind, Mind, NationEmojiState};
use crate::nuke_execution::{can_build_nuke, NukeExecution};
use crate::ordered_tiles::TileRef;
use crate::orders::Order;
use crate::parabola::square_root;
use crate::prng::PseudoRandom;
use crate::state::Unit;
use crate::territory::rand_territory_tile_array;
use crate::unit_type::UnitType;

verus! {

/// For how many ticks a nuke counts as sent lately.
pub const RECENT_NUKE_MAX_AGE_TICKS: u32 = 600;

/// How many emojis go with a nuke.
pub const EMOJI_NUKE_LEN: i32 = 2;

/// Parts of a point that scores are counted in.
pub const SCORE_SCALE: i128 = 1000;

/// No nuke is thought to cost more than this.
pub const MAX_PERCEIVED_COST: i64 = 0x7fff_ffff_ffff_ffff;

/// What a nation remembers of the nukes it sent.
#[derive(Debug)]
pub struct NationNukeState {
    /// When each was sent, where to and of which kind.
    pub recently_sent_nukes: Vec<(u32, TileRef, UnitType)>,
    pub atom_bombs_launched: u32,
    pub atom_bomb_perceived_cost: i64,
    pub hydrogen_bombs_launched: u32,
    pub hydrogen_bomb_perceived_cost: i64,
}

/// A nation's memory of nukes as contracts see it.
#[verifier::ext_equal]
pub struct NukeMemory {
    pub recent: Seq<(u32, TileRef, UnitType)>,
    pub atoms: u32,
    pub atom_cost: i64,
    pub hydrogens: u32,
    pub hydrogen_cost: i64,
}

impl View for NationNukeState {
    type V = NukeMemory;

    open spec fn view(&self) -> NukeMemory {
        NukeMemory {
            recent: self.recently_sent_nukes@,
            atoms: self.atom_bombs_launched,
            atom_cost: self.atom_bomb_perceived_cost,
            hydrogens: self.hydrogen_bombs_launched,
            hydrogen_cost: self.hydrogen_bomb_perceived_cost,
        }
    }
}

impl Default for NationNukeState {
    fn default() -> (state: Self)
        ensures
            state@ == (NukeMemory {
                recent: Seq::empty(),
                atoms: 0,
                atom_cost: 0,
                hydrogens: 0,
                hydrogen_cost: 0,
            }),
    {
        NationNukeState {
            recently_sent_nukes: Vec::new(),
            atom_bombs_launched: 0,
            atom_bomb_perceived_cost: 0,
            hydrogen_bombs_launched: 0,
            hydrogen_bomb_perceived_cost: 0,
        }
    }
}

/// A cost raised to `percent` of what it was.
pub open spec fn raised(cost: int, percent: int) -> int {
    if cost * percent / 100 > MAX_PERCEIVED_COST {
        MAX_PERCEIVED_COST as int
    } else {
        cost * percent / 100
    }
}

pub open spec fn counted(n: u32) -> u32 {
    if n == u32::MAX {
        n
    } else {
        (n + 1) as u32
    }
}

impl NukeMemory {
    pub open spec fn wf(self, map: MapView) -> bool {
        &&& 0 <= self.atom_cost <= MAX_PERCEIVED_COST
        &&& 0 <= self.hydrogen_cost <= MAX_PERCEIVED_COST
        &&& forall|i: int| 0 <= i < self.recent.len() ==> map.valid((#[trigger] self.recent[i]).1)
    }

    /// After a nuke was sent; the next of its kind seems dearer.
    pub open spec fn recording(self, tick: u32, tile: TileRef, nuke: UnitType) -> NukeMemory {
        let recent = self.recent.push((tick, tile, nuke));
        if nuke == UnitType::AtomBomb {
            NukeMemory {
                recent,
                atoms: counted(self.atoms),
                atom_cost: raised(self.atom_cost as int, 150) as i64,
                ..self
            }
        } else if nuke == UnitType::HydrogenBomb {
            NukeMemory {
                recent,
                hydrogens: counted(self.hydrogens),
                hydrogen_cost: raised(self.hydrogen_cost as int, 125) as i64,
                ..self
            }
        } else {
            NukeMemory { recent, ..self }
        }
    }
}

/// What is left of `recent` once the old entries at its front are gone.
pub open spec fn remembered(recent: Seq<(u32, TileRef, UnitType)>, tick: u32) -> Seq<
    (u32, TileRef, UnitType),
>
    decreases recent.len(),
{
    if recent.len() > 0 && recent[0].0 + RECENT_NUKE_MAX_AGE_TICKS < tick {
        remembered(recent.skip(1), tick)
    } else {
        recent
    }
}

/// A nation's world and its memory of nukes.
#[verifier::ext_equal]
pub struct Arsenal {
    pub mind: Mind,
    pub memory: NukeMemory,
}

pub open spec fn arsenal(
    game: Game,
    random: PseudoRandom,
    emoji: NationEmojiState,
    nukes: NationNukeState,
) -> Arsenal {
    Arsenal { mind: mind(game, random, emoji), memory: nukes@ }
}

/// What a structure in reach of a nuke is worth, in points for each level.
pub open spec fn structure_worth(unit_type: UnitType) -> int {
    match unit_type {
        UnitType::City => 25_000,
        UnitType::DefensePost => 5_000,
        UnitType::MissileSilo => 50_000,
        UnitType::Port => 15_000,
        UnitType::Factory => 15_000,
        _ => 0,
    }
}

impl MapView {
    /// The tile at a place, where that is on the map.
    pub open spec fn spot(self, x: int, y: int) -> Seq<TileRef> {
        if self.valid_coord(x, y) {
            seq![self.at(x, y)]
        } else {
            Seq::empty()
        }
    }

    /// The tiles at a place and, where that is another, at a second one.
    pub open spec fn spots(self, x: int, y: int, x2: int, y2: int) -> Seq<TileRef> {
        if x == x2 && y == y2 {
            self.spot(x, y)
        } else {
            self.spot(x, y) + self.spot(x2, y2)
        }
    }

    /// The top and the bottom of a frame, `n` columns from `x0`.
    pub open spec fn rim_rows(self, x0: int, y0: int, y1: int, n: nat) -> Seq<TileRef>
        decreases n,
    {
        if n == 0 {
            Seq::empty()
        } else {
            self.rim_rows(x0, y0, y1, (n - 1) as nat) + self.spots(x0 + n - 1, y0, x0 + n - 1, y1)
        }
    }

    /// The sides of a frame, `n` rows from `y0`.
    pub open spec fn rim_columns(self, x0: int, x1: int, y0: int, n: nat) -> Seq<TileRef>
        decreases n,
    {
        if n == 0 {
            Seq::empty()
        } else {
            self.rim_columns(x0, x1, y0, (n - 1) as nat) + self.spots(x0, y0 + n - 1, x1, y0 + n - 1)
        }
    }

    /// The frame of the square that reaches `r` tiles to each side of a tile.
    pub open spec fn rim(self, t: TileRef, r: int) -> Seq<TileRef> {
        let (x, y) = (self.x(t), self.y(t));
        self.rim_rows(x - r, y - r, y + r, (2 * r + 1) as nat) + self.rim_columns(
            x - r,
            x + r,
            y - r + 1,
            if r == 0 {
                0
            } else {
                (2 * r - 1) as nat
            },
        )
    }
}

impl GameView {
    /// Whether the attacks on a player outnumber its troops.
    pub open spec fn swamped(self, sid: u16) -> bool {
        crate::game_war::troop_sum(self.incoming(sid, false)) >= self.troops(sid) * TROOP_SCALE
    }

    /// What a nation thinks that a nuke costs. While it saves for a MIRV, nukes seem dearer
    /// the more it sent.
    pub open spec fn perceived_cost(self, sid: u16, memory: NukeMemory, nuke: UnitType) -> int {
        let gold = self.gold(sid);
        if self.alive_ids().len() == 2 || self.config.disabled(UnitType::Mirv) || (
        self.config.is_team() && gold > self.cost(sid, UnitType::HydrogenBomb)) || gold > self.cost(
            sid,
            UnitType::Mirv,
        ) + self.cost(sid, UnitType::HydrogenBomb) || (self.is_tough() && self.swamped(sid)) {
            self.cost(sid, nuke)
        } else if nuke == UnitType::AtomBomb {
            memory.atom_cost as int
        } else {
            memory.hydrogen_cost as int
        }
    }

    /// The kind of nuke that a nation sends, if it can pay for one.
    pub open spec fn nuke_choice(self, sid: u16, memory: NukeMemory, hydro: bool) -> Option<UnitType> {
        if !self.config.disabled(UnitType::HydrogenBomb) && self.gold(sid) >= self.perceived_cost(
            sid,
            memory,
            UnitType::HydrogenBomb,
        ) {
            Some(UnitType::HydrogenBomb)
        } else if !self.config.disabled(UnitType::AtomBomb) && (!hydro || self.swamped(sid))
            && self.gold(sid) >= self.perceived_cost(sid, memory, UnitType::AtomBomb) {
            Some(UnitType::AtomBomb)
        } else {
            None
        }
    }

    /// Whether a nuke at `target` may hit a tile.
    pub open spec fn fair_tile(self, sid: u16, target: u16) -> spec_fn(TileRef) -> bool {
        |t: TileRef|
            self.map.owner(t) == target || (self.is_tough() && (self.map.owner(t) == 0 || (
            self.config.is_team() && !self.is_friendly(sid, self.map.owner(t)))))
    }

    /// Nukes of friends that are on their way to about the same place.
    pub open spec fn shared_target(self, sid: u16, tile: TileRef, nuke: UnitType) -> spec_fn(
        Unit,
    ) -> bool {
        |u: Unit|
            u.owner != sid && self.has(u.owner) && self.is_friendly(sid, u.owner) && (u.unit_type
                == UnitType::AtomBomb || u.unit_type == UnitType::HydrogenBomb)
                && u.target_tile is Some && self.map.dist2(tile, u.target_tile->0) <= (
            self.config.magnitude(nuke).inner + self.config.magnitude(u.unit_type).inner) * (
            self.config.magnitude(nuke).inner + self.config.magnitude(u.unit_type).inner)
    }

    /// SAM launchers of enemies that reach a tile.
    pub open spec fn covering(self, sid: u16, tile: TileRef) -> spec_fn(Unit) -> bool {
        |u: Unit|
            u.unit_type == UnitType::SamLauncher && u.owner != sid && !self.is_friendly(sid, u.owner)
                && crate::config::within_sam_range(self.map.dist2(tile, u.tile), u.level as int)
    }

    /// Whether an enemy's SAM launcher that is not `ignored` reaches a tile.
    pub open spec fn covered(self, sid: u16, tile: TileRef, ignored: Seq<i32>) -> bool {
        exists|i: int|
            0 <= i < self.units.len() && self.covering(sid, tile)(#[trigger] self.units[i])
                && !ignored.contains(self.units[i].id)
    }

    /// Whether a tile is as far from `spot` as a missile can be shot down, or farther.
    pub open spec fn beyond_reach(self, spot: TileRef) -> spec_fn(TileRef) -> bool {
        |t: TileRef|
            self.map.dist2(t, spot) > self.config.nuke_targetable_range
                * self.config.nuke_targetable_range
    }

    pub open spec fn nearing(self, spot: TileRef) -> spec_fn(TileRef) -> bool {
        |t: TileRef| self.within_reach(spot, t)
    }

    /// The part of a flight on which a missile cannot be shot down: from the first tile out
    /// of reach of its start to the first in reach of its target.
    pub open spec fn safe_part(self, path: Seq<TileRef>, src: TileRef, dst: TileRef) -> (int, int) {
        let start = first_index(path, 0, self.beyond_reach(src));
        let end = first_index(path, start + 1, self.nearing(dst));
        if start < path.len() && !self.within_reach(dst, path[start]) && end < path.len() {
            (start, end)
        } else {
            (0, 0)
        }
    }

    /// Whether a SAM launcher that is not `ignored` could shoot down a nuke.
    pub open spec fn interceptable(
        self,
        sid: u16,
        src: TileRef,
        dst: TileRef,
        ignored: Seq<i32>,
    ) -> bool {
        let path = self.map.flight(src, dst, self.config.nuke_speed as int, true, true);
        let (start, end) = self.safe_part(path, src, dst);
        exists|i: int|
            0 <= i < path.len() && !(start <= i < end) && self.covered(
                sid,
                #[trigger] path[i],
                ignored,
            )
    }

    /// What the structures in reach of a nuke are worth, in points.
    pub open spec fn worth(self, tile: TileRef, outer: int, units: Seq<Unit>) -> int
        decreases units.len(),
    {
        if units.len() == 0 {
            0
        } else {
            let u = units.last();
            self.worth(tile, outer, units.drop_last()) + (if self.map.dist2(tile, u.tile) <= outer
                * outer {
                structure_worth(u.unit_type) * u.level
            } else {
                0
            })
        }
    }

    /// SAM launchers of `units` that stand near a tile.
    pub open spec fn guarded(self, tile: TileRef) -> spec_fn(Unit) -> bool {
        |u: Unit| u.unit_type == UnitType::SamLauncher && self.map.dist2(tile, u.tile) <= 2500
    }

    /// What the SAM launchers are worth that a hydrogen bomb destroys from out of their
    /// range, in points.
    pub open spec fn outranged(self, tile: TileRef, outer: int, units: Seq<Unit>) -> int
        decreases units.len(),
    {
        if units.len() == 0 {
            0
        } else {
            let u = units.last();
            let d2 = self.map.dist2(tile, u.tile);
            self.outranged(tile, outer, units.drop_last()) + (if u.unit_type
                == UnitType::SamLauncher && d2 <= outer * outer && u.level < 5
                && !crate::config::within_sam_range(d2, u.level as int) {
                100_000 * u.level
            } else {
                0
            })
        }
    }

    /// How many of the nukes sent lately hit a tile.
    pub open spec fn repeats(self, tile: TileRef, recent: Seq<(u32, TileRef, UnitType)>) -> int
        decreases recent.len(),
    {
        if recent.len() == 0 {
            0
        } else {
            let (tick, spot, nuke) = recent.last();
            self.repeats(tile, recent.drop_last()) + (if self.map.dist2(tile, spot)
                <= self.config.magnitude(nuke).inner * self.config.magnitude(nuke).inner {
                1int
            } else {
                0
            })
        }
    }

    /// The score of what a nuke at a tile hits.
    pub open spec fn gain(self, tile: TileRef, structures: Seq<Unit>, nuke: UnitType) -> int {
        let outer = self.config.magnitude(nuke).outer as int;
        SCORE_SCALE * (self.worth(tile, outer, structures) + (if self.config.difficulty
            == Difficulty::Impossible && nuke == UnitType::HydrogenBomb {
            self.outranged(tile, outer, self.units)
        } else {
            0
        }))
    }

    /// What a score loses for the way from the nearest silo; a fifth of it is kept.
    pub open spec fn discounted(self, gain: int, tile: TileRef, silos: Seq<TileRef>) -> int {
        match crate::game_land::nearest_pair(self.map, silos, seq![tile]) {
            Some(pair) => {
                let left = gain - crate::parabola::root(
                    900_000_000 * self.map.dist2(tile, pair.0),
                );
                if left < gain / 5 {
                    gain / 5
                } else {
                    left
                }
            },
            None => gain,
        }
    }

    /// The score of a nuke at a tile.
    pub open spec fn nuke_score(
        self,
        tile: TileRef,
        silos: Seq<TileRef>,
        structures: Seq<Unit>,
        nuke: UnitType,
        recent: Seq<(u32, TileRef, UnitType)>,
    ) -> int {
        if self.config.difficulty == Difficulty::Medium && crate::lists::some_where(
            structures,
            self.guarded(tile),
        ) {
            -SCORE_SCALE
        } else if silos.len() == 0 {
            self.gain(tile, structures, nuke)
        } else {
            self.discounted(self.gain(tile, structures, nuke), tile, silos) - SCORE_SCALE
                * 1_000_000 * self.repeats(tile, recent)
        }
    }

    /// Whether a nation would nuke a tile at all.
    pub open spec fn nukable(self, sid: u16, target: u16, tile: TileRef, nuke: UnitType) -> bool {
        let outer = self.config.magnitude(nuke).outer as int;
        let fair = self.fair_tile(sid, target);
        let src = self.launch_site(sid, nuke, tile);
        &&& forall|i: int| 0 <= i < self.map.rim(tile, outer).len() ==> fair(
            #[trigger] self.map.rim(tile, outer)[i],
        )
        &&& forall|i: int| 0 <= i < self.map.rim(tile, outer / 2).len() ==> fair(
            #[trigger] self.map.rim(tile, outer / 2)[i],
        )
        &&& src is Some
        &&& !(self.config.is_team() && self.config.difficulty != Difficulty::Easy
            && crate::lists::some_where(self.units, self.shared_target(sid, tile, nuke)))
        &&& !(self.is_tough() && self.interceptable(sid, src->0, tile, Seq::empty()))
    }

    /// The tile with the best score, of those that a nation would nuke, and its score.
    pub open spec fn best_spot(
        self,
        sid: u16,
        target: u16,
        nuke: UnitType,
        recent: Seq<(u32, TileRef, UnitType)>,
        tiles: Seq<TileRef>,
    ) -> (Option<TileRef>, int)
        decreases tiles.len(),
    {
        if tiles.len() == 0 {
            (None, -SCORE_SCALE)
        } else {
            let (best, score) = self.best_spot(sid, target, nuke, recent, tiles.drop_last());
            let t = tiles.last();
            let value = self.nuke_score(
                t,
                self.silo_tiles(sid),
                self.structures_of(target),
                nuke,
                recent,
            );
            if self.nukable(sid, target, t, nuke) && value > score {
                (Some(t), value)
            } else {
                (best, score)
            }
        }
    }

    /// The tiles of a player's silos, oldest first.
    pub open spec fn silo_tiles(self, sid: u16) -> Seq<TileRef> {
        self.units_of(sid, UnitType::MissileSilo).map_values(tile_of_unit())
    }

    /// The tiles of a player's structures, oldest first.
    pub open spec fn structure_tiles(self, sid: u16) -> Seq<TileRef> {
        self.structures_of(sid).map_values(tile_of_unit())
    }

    /// The tiles that a nation thinks of nuking, and the random state after it chose them.
    pub open spec fn nuke_spots(self, rng: u64, target: u16) -> (Seq<TileRef>, u64) {
        let n = if self.config.difficulty == Difficulty::Impossible {
            30nat
        } else {
            10nat
        };
        let (tiles, after) = self.random_tiles(rng, target, n);
        (crate::lists::distinct(tiles + self.structure_tiles(target)), after)
    }
}

/// Maps units to their tiles.
pub open spec fn tile_of_unit() -> spec_fn(Unit) -> TileRef {
    |u: Unit| u.tile
}

/// The first position from `from` on at which `p` holds, or the length.
pub open spec fn first_index(s: Seq<TileRef>, from: int, p: spec_fn(TileRef) -> bool) -> int
    decreases s.len() - from,
{
    if from >= s.len() {
        s.len() as int
    } else if p(s[from]) {
        from
    } else {
        first_index(s, from + 1, p)
    }
}

impl Arsenal {
    /// After a nuke was sent at `target`.
    pub open spec fn sending(
        self,
        sid: u16,
        tile: TileRef,
        nuke: UnitType,
        target: u16,
        wait_ticks: u32,
    ) -> Arsenal {
        let game = self.mind.game.ordering(
            Order::Nuke {
                nuke_type: nuke,
                owner: sid,
                dst: tile,
                src: None,
                speed: None,
                wait_ticks,
                rocket_direction_up: true,
            },
        );
        Arsenal {
            mind: Mind { game, ..self.mind }.pacing(sid, Some(target)),
            memory: self.memory.recording(self.mind.game.tick, tile, nuke),
        }
    }
}

impl MapView {
    /// Columns left of the map hold nothing.
    proof fn lemma_rows_left(self, x0: int, y0: int, y1: int, n: nat)
        requires
            x0 + n <= 0,
        ensures
            self.rim_rows(x0, y0, y1, n) == Seq::<TileRef>::empty(),
        decreases n,
    {
        if n > 0 {
            self.lemma_rows_left(x0, y0, y1, (n - 1) as nat);
            assert(self.spots(x0 + n - 1, y0, x0 + n - 1, y1) =~= Seq::empty());
        }
    }

    /// Columns right of the map hold nothing.
    proof fn lemma_rows_right(self, x0: int, y0: int, y1: int, m: nat, n: nat)
        requires
            m <= n,
            x0 + m >= self.width,
        ensures
            self.rim_rows(x0, y0, y1, n) == self.rim_rows(x0, y0, y1, m),
        decreases n,
    {
        if n > m {
            self.lemma_rows_right(x0, y0, y1, m, (n - 1) as nat);
            assert(self.spots(x0 + n - 1, y0, x0 + n - 1, y1) =~= Seq::empty());
            assert(self.rim_rows(x0, y0, y1, n) =~= self.rim_rows(x0, y0, y1, (n - 1) as nat));
        }
    }

    /// Rows above the map hold nothing.
    proof fn lemma_columns_above(self, x0: int, x1: int, y0: int, n: nat)
        requires
            y0 + n <= 0,
        ensures
            self.rim_columns(x0, x1, y0, n) == Seq::<TileRef>::empty(),
        decreases n,
    {
        if n > 0 {
            self.lemma_columns_above(x0, x1, y0, (n - 1) as nat);
            assert(self.spots(x0, y0 + n - 1, x1, y0 + n - 1) =~= Seq::empty());
        }
    }

    /// Rows below the map hold nothing.
    proof fn lemma_columns_below(self, x0: int, x1: int, y0: int, m: nat, n: nat)
        requires
            m <= n,
            y0 + m >= self.height,
        ensures
            self.rim_columns(x0, x1, y0, n) == self.rim_columns(x0, x1, y0, m),
        decreases n,
    {
        if n > m {
            self.lemma_columns_below(x0, x1, y0, m, (n - 1) as nat);
            assert(self.spots(x0, y0 + n - 1, x1, y0 + n - 1) =~= Seq::empty());
            assert(self.rim_columns(x0, x1, y0, n) =~= self.rim_columns(x0, x1, y0, (n - 1) as nat));
        }
    }

    /// The one or two tiles at two places.
    proof fn lemma_spots(self, x: int, y: int, x2: int, y2: int)
        requires
            self.wf(),
        ensures
            self.spots(x, y, x2, y2).no_duplicates(),
            forall|t: TileRef|
                #[trigger] self.spots(x, y, x2, y2).contains(t) <==> self.valid(t) && ((self.x(t)
                    == x && self.y(t) == y) || (self.x(t) == x2 && self.y(t) == y2)),
            self.valid_coord(x, y) && self.valid_coord(x2, y2) ==> self.spots(x, y, x2, y2).len()
                == if x == x2 && y == y2 {
                1int
            } else {
                2
            },
    {
        let s = self.spots(x, y, x2, y2);
        if self.valid_coord(x, y) {
            self.lemma_at(x, y);
        }
        if self.valid_coord(x2, y2) {
            self.lemma_at(x2, y2);
        }
        assert forall|t: TileRef| self.valid(t) && ((self.x(t) == x && self.y(t) == y) || (self.x(t)
            == x2 && self.y(t) == y2)) implies #[trigger] s.contains(t) by {
            self.lemma_xy(t);
            if self.x(t) == x && self.y(t) == y {
                assert(s[0] == t);
            } else if self.valid_coord(x, y) {
                assert(s[1] == t);
            } else {
                assert(s[0] == t);
            }
        }
        assert forall|t: TileRef| #[trigger] s.contains(t) implies self.valid(t) && ((self.x(t)
            == x && self.y(t) == y) || (self.x(t) == x2 && self.y(t) == y2)) by {
            let i = choose|i: int| 0 <= i < s.len() && s[i] == t;
            assert(t == self.at(x, y) && self.valid_coord(x, y) || t == self.at(x2, y2)
                && self.valid_coord(x2, y2));
        }
    }

    /// The tiles of the top and the bottom of a frame.
    proof fn lemma_rim_rows(self, x0: int, y0: int, y1: int, n: nat)
        requires
            self.wf(),
        ensures
            self.rim_rows(x0, y0, y1, n).no_duplicates(),
            forall|t: TileRef|
                #[trigger] self.rim_rows(x0, y0, y1, n).contains(t) <==> self.valid(t) && x0
                    <= self.x(t) < x0 + n && (self.y(t) == y0 || self.y(t) == y1),
            0 <= x0 && x0 + n <= self.width && 0 <= y0 < y1 < self.height ==> self.rim_rows(
                x0,
                y0,
                y1,
                n,
            ).len() == 2 * n,
        decreases n,
    {
        if n > 0 {
            let before = self.rim_rows(x0, y0, y1, (n - 1) as nat);
            let last = self.spots(x0 + n - 1, y0, x0 + n - 1, y1);
            self.lemma_rim_rows(x0, y0, y1, (n - 1) as nat);
            self.lemma_spots(x0 + n - 1, y0, x0 + n - 1, y1);
            lemma_joined(before, last);
        }
    }

    /// The tiles of the sides of a frame.
    proof fn lemma_rim_columns(self, x0: int, x1: int, y0: int, n: nat)
        requires
            self.wf(),
        ensures
            self.rim_columns(x0, x1, y0, n).no_duplicates(),
            forall|t: TileRef|
                #[trigger] self.rim_columns(x0, x1, y0, n).contains(t) <==> self.valid(t) && y0
                    <= self.y(t) < y0 + n && (self.x(t) == x0 || self.x(t) == x1),
            0 <= y0 && y0 + n <= self.height && 0 <= x0 < x1 < self.width ==> self.rim_columns(
                x0,
                x1,
                y0,
                n,
            ).len() == 2 * n,
        decreases n,
    {
        if n > 0 {
            let before = self.rim_columns(x0, x1, y0, (n - 1) as nat);
            let last = self.spots(x0, y0 + n - 1, x1, y0 + n - 1);
            self.lemma_rim_columns(x0, x1, y0, (n - 1) as nat);
            self.lemma_spots(x0, y0 + n - 1, x1, y0 + n - 1);
            lemma_joined(before, last);
        }
    }

    /// A frame holds, each once, the tiles on the map whose row or column is `r` away and
    /// neither is farther; eight for each step away where all of it is on the map.
    pub proof fn law_rim(self, center: TileRef, r: int)
        requires
            self.wf(),
            self.valid(center),
            r >= 0,
        ensures
            self.rim(center, r).no_duplicates(),
            forall|t: TileRef|
                #[trigger] self.rim(center, r).contains(t) <==> self.valid(t) && (crate::map::gap(
                    self.x(t),
                    self.x(center),
                ) == r && crate::map::gap(self.y(t), self.y(center)) <= r || crate::map::gap(
                    self.x(t),
                    self.x(center),
                ) <= r && crate::map::gap(self.y(t), self.y(center)) == r),
            r > 0 && self.valid_coord(self.x(center) - r, self.y(center) - r) && self.valid_coord(
                self.x(center) + r,
                self.y(center) + r,
            ) ==> self.rim(center, r).len() == 8 * r,
            self.rim(center, 0) == seq![center],
    {
        let (x, y) = (self.x(center), self.y(center));
        let n = (2 * r + 1) as nat;
        let m = if r == 0 {
            0
        } else {
            (2 * r - 1) as nat
        };
        let rows = self.rim_rows(x - r, y - r, y + r, n);
        let columns = self.rim_columns(x - r, x + r, y - r + 1, m);
        self.lemma_rim_rows(x - r, y - r, y + r, n);
        self.lemma_rim_columns(x - r, x + r, y - r + 1, m);
        lemma_joined(rows, columns);
        self.lemma_xy(center);
        assert(self.rim_rows(x, y, y, 0) =~= Seq::empty());
        assert(self.rim_rows(x, y, y, 1) =~= seq![center]);
        assert(self.rim_columns(x, x, y + 1, 0) =~= Seq::empty());
        assert(self.rim(center, 0) =~= seq![center]);
    }
}

/// What two lists hold together.
proof fn lemma_joined(a: Seq<TileRef>, b: Seq<TileRef>)
    ensures
        forall|t: TileRef| #[trigger] (a + b).contains(t) <==> a.contains(t) || b.contains(t),
        a.no_duplicates() && b.no_duplicates() && (forall|t: TileRef|
            !(#[trigger] a.contains(t) && b.contains(t))) ==> (a + b).no_duplicates(),
{
    let s = a + b;
    assert forall|t: TileRef| a.contains(t) || b.contains(t) implies #[trigger] s.contains(t) by {
        if a.contains(t) {
            let i = choose|i: int| 0 <= i < a.len() && a[i] == t;
            assert(s[i] == t);
        } else {
            let i = choose|i: int| 0 <= i < b.len() && b[i] == t;
            assert(s[a.len() + i] == t);
        }
    }
    if a.no_duplicates() && b.no_duplicates() && (forall|t: TileRef|
        !(#[trigger] a.contains(t) && b.contains(t))) {
        assert forall|i: int, j: int| 0 <= i < s.len() && 0 <= j < s.len() && i != j implies s[i]
            != s[j] by {
            if i < a.len() && j >= a.len() {
                assert(a.contains(a[i]) && b.contains(b[j - a.len()]));
            } else if j < a.len() && i >= a.len() {
                assert(a.contains(a[j]) && b.contains(b[i - a.len()]));
            }
        }
    }
}

fn push_spot(game: &Game, x: i64, y: i64, tiles: &mut Vec<TileRef>)
    requires
        game@.wf(),
        forall|i: int| 0 <= i < old(tiles)@.len() ==> game@.map.valid(#[trigger] old(tiles)@[i]),
    ensures
        final(tiles)@ == old(tiles)@ + game@.map.spot(x as int, y as int),
        forall|i: int| 0 <= i < final(tiles)@.len() ==> game@.map.valid(#[trigger] final(tiles)@[i]),
{
    if 0 <= x && x < game.map.width as i64 && 0 <= y && y < game.map.height as i64 {
        tiles.push(game.map.ref_xy(x as u32, y as u32));
        assert(tiles@ =~= old(tiles)@ + game@.map.spot(x as int, y as int));
    } else {
        assert(tiles@ =~= old(tiles)@ + game@.map.spot(x as int, y as int));
    }
}

/// The part of a run of `n` places from `start` that lies in `0..size`: where it begins and
/// ends, counted from `start`.
fn part_on_map(start: i64, n: i64, size: u32) -> (part: (i64, i64))
    requires
        -0x1_0000_0000 <= start <= 0x1_0000_0000,
        0 <= n <= 0x1_0000_0000,
    ensures
        0 <= part.0 <= part.1 <= n,
        part.0 == 0 || start + part.0 <= 0,
        part.1 == n || start + part.1 >= size,
{
    let first: i64 = if start >= 0 {
        0
    } else if n < -start {
        n
    } else {
        -start
    };
    let end: i64 = if start + n <= size as i64 {
        n
    } else if start >= size as i64 {
        0
    } else {
        size as i64 - start
    };
    if end < first {
        (first, first)
    } else {
        (first, end)
    }
}

/// The frame of the square that reaches `radius` tiles to each side of a tile.
pub fn bounding_box_tiles(game: &Game, center: TileRef, radius: i32) -> (tiles: Vec<TileRef>)
    requires
        game@.wf(),
        game@.map.valid(center),
        0 <= radius,
    ensures
        tiles@ == game@.map.rim(center, radius as int),
        forall|i: int| 0 <= i < tiles@.len() ==> game@.map.valid(#[trigger] tiles@[i]),
{
    proof {
        game@.map.lemma_xy(center);
    }
    let r: i64 = radius as i64;
    let x0: i64 = game.map.x(center) as i64 - r;
    let x1: i64 = x0 + 2 * r;
    let y0: i64 = game.map.y(center) as i64 - r;
    let y1: i64 = y0 + 2 * r;
    let n: i64 = 2 * r + 1;
    let mut tiles: Vec<TileRef> = Vec::new();
    let (first, end) = part_on_map(x0, n, game.map.width);
    proof {
        if first > 0 {
            game@.map.lemma_rows_left(x0 as int, y0 as int, y1 as int, first as nat);
        }
    }
    for k in first..end
        invariant
            game@.wf(),
            -0x1_0000_0000 <= x0 <= 0x1_0000_0000,
            0 <= first <= end <= n <= 0x1_0000_0000,
            tiles@ == game@.map.rim_rows(x0 as int, y0 as int, y1 as int, k as nat),
            forall|i: int| 0 <= i < tiles@.len() ==> game@.map.valid(#[trigger] tiles@[i]),
    {
        let ghost held = tiles@;
        push_spot(game, x0 + k, y0, &mut tiles);
        if y0 != y1 {
            push_spot(game, x0 + k, y1, &mut tiles);
        }
        assert(tiles@ =~= held + game@.map.spots(x0 + k, y0 as int, x0 + k, y1 as int));
    }
    proof {
        if end < n {
            game@.map.lemma_rows_right(x0 as int, y0 as int, y1 as int, end as nat, n as nat);
        }
    }
    let m: i64 = if r == 0 {
        0
    } else {
        2 * r - 1
    };
    let ghost rows = tiles@;
    assert(rows == game@.map.rim_rows(x0 as int, y0 as int, y1 as int, n as nat));
    let (first, end) = part_on_map(y0 + 1, m, game.map.height);
    proof {
        if first > 0 {
            game@.map.lemma_columns_above(x0 as int, x1 as int, y0 + 1, first as nat);
        }
        assert(rows + game@.map.rim_columns(x0 as int, x1 as int, y0 + 1, first as nat) =~= rows);
    }
    for k in first..end
        invariant
            game@.wf(),
            -0x1_0000_0000 <= y0 <= 0x1_0000_0000,
            0 <= first <= end <= m <= 0x1_0000_0000,
            tiles@ == rows + game@.map.rim_columns(x0 as int, x1 as int, y0 + 1, k as nat),
            forall|i: int| 0 <= i < tiles@.len() ==> game@.map.valid(#[trigger] tiles@[i]),
    {
        let ghost held = tiles@;
        push_spot(game, x0, y0 + 1 + k, &mut tiles);
        if x0 != x1 {
            push_spot(game, x1, y0 + 1 + k, &mut tiles);
        }
        assert(tiles@ =~= held + game@.map.spots(x0 as int, y0 + 1 + k, x1 as int, y0 + 1 + k));
        assert(tiles@ =~= rows + game@.map.rim_columns(
            x0 as int,
            x1 as int,
            y0 + 1,
            (k + 1) as nat,
        ));
    }
    proof {
        if end < m {
            game@.map.lemma_columns_below(x0 as int, x1 as int, y0 + 1, end as nat, m as nat);
        }
    }
    tiles
}

/// Whether the attacks on a player outnumber its troops.
pub fn is_under_heavy_attack(game: &Game, small_id: u16) -> (swamped: bool)
    requires
        game@.wf(),
    ensures
        swamped == game@.swamped(small_id),
{
    game.incoming_land_troops(small_id) >= (game.troops_of(small_id) * TROOP_SCALE) as i128
}

/// What a nation thinks that a nuke costs.
pub fn get_perceived_nuke_cost(
    game: &Game,
    small_id: u16,
    nuke_state: &NationNukeState,
    nuke_type: UnitType,
) -> (cost: i64)
    requires
        game@.wf(),
    ensures
        cost == game@.perceived_cost(small_id, nuke_state@, nuke_type),
{
    let actual: i64 = game.structure_cost(small_id, nuke_type);
    if game.players_alive().len() == 2 {
        return actual;
    }
    if game.wire.is_unit_disabled(UnitType::Mirv) {
        return actual;
    }
    let gold: i64 = game.gold_of(small_id);
    let hydrogen: i64 = game.structure_cost(small_id, UnitType::HydrogenBomb);
    if game.wire.game_mode == GameMode::Team && gold > hydrogen {
        return actual;
    }
    if gold > game.structure_cost(small_id, UnitType::Mirv) + hydrogen {
        return actual;
    }
    let tough = game.wire.difficulty == Difficulty::Hard || game.wire.difficulty
        == Difficulty::Impossible;
    if tough && is_under_heavy_attack(game, small_id) {
        return actual;
    }
    if nuke_type == UnitType::AtomBomb {
        nuke_state.atom_bomb_perceived_cost
    } else {
        nuke_state.hydrogen_bomb_perceived_cost
    }
}

/// The kind of nuke that a nation sends, if it can pay for one.
pub(crate) fn choose_nuke(game: &Game, small_id: u16, nuke_state: &NationNukeState, is_hydro_nation: bool) -> (
    nuke: Option<UnitType>)
    requires
        game@.wf(),
    ensures
        nuke == game@.nuke_choice(small_id, nuke_state@, is_hydro_nation),
{
    let gold: i64 = game.gold_of(small_id);
    let hydrogen: i64 = get_perceived_nuke_cost(
        game,
        small_id,
        nuke_state,
        UnitType::HydrogenBomb,
    );
    let atom: i64 = get_perceived_nuke_cost(game, small_id, nuke_state, UnitType::AtomBomb);
    if !game.wire.is_unit_disabled(UnitType::HydrogenBomb) && gold >= hydrogen {
        Some(UnitType::HydrogenBomb)
    } else if !game.wire.is_unit_disabled(UnitType::AtomBomb) && (!is_hydro_nation
        || is_under_heavy_attack(game, small_id)) && gold >= atom {
        Some(UnitType::AtomBomb)
    } else {
        None
    }
}

/// Forgets the nukes that were sent long ago.
pub fn remove_old_nuke_events(game: &Game, nuke_state: &mut NationNukeState)
    requires
        old(nuke_state)@.wf(game@.map),
    ensures
        final(nuke_state)@ == (NukeMemory {
            recent: remembered(old(nuke_state)@.recent, game@.tick),
            ..old(nuke_state)@
        }),
        final(nuke_state)@.wf(game@.map),
{
    let tick: u32 = game.tick;
    while nuke_state.recently_sent_nukes.len() > 0 && (nuke_state.recently_sent_nukes[0].0 as u64
        + RECENT_NUKE_MAX_AGE_TICKS as u64) < tick as u64
        invariant
            tick == game@.tick,
            nuke_state@.wf(game@.map),
            nuke_state@ == (NukeMemory { recent: nuke_state@.recent, ..old(nuke_state)@ }),
            remembered(nuke_state@.recent, tick) == remembered(old(nuke_state)@.recent, tick),
        decreases nuke_state@.recent.len(),
    {
        let ghost before = nuke_state@.recent;
        nuke_state.recently_sent_nukes.remove(0);
        assert(nuke_state@.recent =~= before.skip(1));
    }
}

/// Whether a nuke at `nuke_target` may hit a tile.
pub fn is_valid_nuke_tile(game: &Game, small_id: u16, t: TileRef, nuke_target: u16) -> (valid: bool)
    requires
        game@.map.valid(t),
    ensures
        valid == game@.fair_tile(small_id, nuke_target)(t),
{
    let owner: u16 = game.map.owner_id(t);
    if owner == nuke_target {
        return true;
    }
    let tough = game.wire.difficulty == Difficulty::Hard || game.wire.difficulty
        == Difficulty::Impossible;
    tough && (owner == 0 || (game.wire.game_mode == GameMode::Team && !game.is_friendly(
        small_id,
        owner,
    )))
}

fn all_fair(game: &Game, small_id: u16, tiles: &Vec<TileRef>, nuke_target: u16) -> (fair: bool)
    requires
        forall|i: int| 0 <= i < tiles@.len() ==> game@.map.valid(#[trigger] tiles@[i]),
    ensures
        fair == forall|i: int|
            0 <= i < tiles@.len() ==> game@.fair_tile(small_id, nuke_target)(#[trigger] tiles@[i]),
{
    for i in 0..tiles.len()
        invariant
            forall|k: int| 0 <= k < tiles@.len() ==> game@.map.valid(#[trigger] tiles@[k]),
            forall|k: int|
                0 <= k < i ==> game@.fair_tile(small_id, nuke_target)(#[trigger] tiles@[k]),
    {
        if !is_valid_nuke_tile(game, small_id, tiles[i], nuke_target) {
            assert(!game@.fair_tile(small_id, nuke_target)(tiles@[i as int]));
            return false;
        }
    }
    true
}

/// Whether a friend's nuke is on its way to about the same place.
fn is_teammate_already_nuking_this_spot(
    game: &Game,
    small_id: u16,
    tile: TileRef,
    nuke_type: UnitType,
) -> (shared: bool)
    requires
        game@.wf(),
        game@.map.valid(tile),
    ensures
        shared == crate::lists::some_where(
            game@.units,
            game@.shared_target(small_id, tile, nuke_type),
        ),
{
    let own: u32 = game.wire.nuke_magnitudes(nuke_type).inner;
    let ghost p = game@.shared_target(small_id, tile, nuke_type);
    for i in 0..game.units.len()
        invariant
            game@.wf(),
            game@.map.valid(tile),
            own == game@.config.magnitude(nuke_type).inner,
            own <= 1000,
            p == game@.shared_target(small_id, tile, nuke_type),
            forall|k: int| 0 <= k < i ==> !p(#[trigger] game@.units[k]),
    {
        let u: Unit = game.units[i];
        assert(game@.units[i as int] == u);
        if u.owner != small_id && game.player_by_small_id(u.owner).is_some() && game.is_friendly(
            small_id,
            u.owner,
        ) && (u.unit_type == UnitType::AtomBomb || u.unit_type == UnitType::HydrogenBomb) {
            match u.target_tile {
                Some(target) => {
                    let sum: u32 = own + game.wire.nuke_magnitudes(u.unit_type).inner;
                    assert(sum * sum <= 2000 * 2000) by (nonlinear_arith)
                        requires
                            sum <= 2000,
                    ;
                    if game.map.euclidean_dist_squared(tile, target) <= sum as u64 * sum as u64 {
                        assert(p(game@.units[i as int]));
                        return true;
                    }
                },
                None => {},
            }
        }
    }
    false
}

fn has_unit_id(ids: &Vec<i32>, id: i32) -> (has: bool)
    ensures
        has == ids@.contains(id),
{
    for i in 0..ids.len()
        invariant
            forall|k: int| 0 <= k < i ==> ids@[k] != id,
    {
        if ids[i] == id {
            assert(ids@[i as int] == id);
            return true;
        }
    }
    false
}

/// Whether an enemy's SAM launcher reaches a tile.
pub(crate) fn does_cover(game: &Game, small_id: u16, tile: TileRef, u: Unit) -> (covers: bool)
    requires
        game@.wf(),
        game@.map.valid(tile),
        game@.map.valid(u.tile),
        u.wf(),
    ensures
        covers == game@.covering(small_id, tile)(u),
{
    if u.unit_type != UnitType::SamLauncher || u.owner == small_id || game.is_friendly(
        small_id,
        u.owner,
    ) {
        return false;
    }
    is_within_sam_range(game.map.euclidean_dist_squared(tile, u.tile), u.level)
}

fn is_covered(game: &Game, small_id: u16, tile: TileRef, ignored: &Vec<i32>) -> (covered: bool)
    requires
        game@.wf(),
        game@.map.valid(tile),
    ensures
        covered == game@.covered(small_id, tile, ignored@),
{
    for i in 0..game.units.len()
        invariant
            game@.wf(),
            game@.map.valid(tile),
            forall|k: int|
                0 <= k < i ==> !(game@.covering(small_id, tile)(#[trigger] game@.units[k])
                    && !ignored@.contains(game@.units[k].id)),
    {
        let u: Unit = game.units[i];
        assert(game@.units[i as int] == u);
        if does_cover(game, small_id, tile, u) && !has_unit_id(ignored, u.id) {
            assert(game@.covering(small_id, tile)(game@.units[i as int]));
            return true;
        }
    }
    false
}

fn find_index<F: Fn(TileRef) -> bool>(
    s: &Vec<TileRef>,
    from: usize,
    f: F,
    Ghost(p): Ghost<spec_fn(TileRef) -> bool>,
) -> (at: usize)
    requires
        from <= s@.len(),
        forall|i: int| 0 <= i < s@.len() ==> call_requires(f, (#[trigger] s@[i],)),
        forall|i: int, b: bool|
            0 <= i < s@.len() && #[trigger] call_ensures(f, (s@[i],), b) ==> b == p(s@[i]),
    ensures
        at == first_index(s@, from as int, p),
        from <= at <= s@.len(),
{
    let mut at: usize = from;
    while at < s.len()
        invariant
            from <= at <= s@.len(),
            forall|i: int| 0 <= i < s@.len() ==> call_requires(f, (#[trigger] s@[i],)),
            forall|i: int, b: bool|
                0 <= i < s@.len() && #[trigger] call_ensures(f, (s@[i],), b) ==> b == p(s@[i]),
            first_index(s@, from as int, p) == first_index(s@, at as int, p),
        decreases s@.len() - at,
    {
        let t: TileRef = s[at];
        assert(s@[at as int] == t);
        if f(t) {
            return at;
        }
        at += 1;
    }
    at
}

/// The part of a flight on which a missile cannot be shot down.
fn find_safe_part(game: &Game, path: &Vec<TileRef>, src: TileRef, dst: TileRef) -> (part: (usize, usize))
    requires
        game@.wf(),
        game@.map.valid(src),
        game@.map.valid(dst),
        forall|i: int| 0 <= i < path@.len() ==> game@.map.valid(#[trigger] path@[i]),
    ensures
        (part.0 as int, part.1 as int) == game@.safe_part(path@, src, dst),
{
    let range: u32 = game.wire.nuke_targetable_range;
    assert(range * range <= 100_000 * 100_000) by (nonlinear_arith)
        requires
            range <= 100_000,
    ;
    let r2: u64 = range as u64 * range as u64;
    let beyond = |t: TileRef| -> (far: bool)
        requires
            game@.map.valid(t),
        ensures
            far == game@.beyond_reach(src)(t),
        { game.map.euclidean_dist_squared(t, src) > r2 };
    let start: usize = find_index(path, 0, beyond, Ghost(game@.beyond_reach(src)));
    if start >= path.len() {
        return (0, 0);
    }
    assert(game@.map.valid(path@[start as int]));
    if game.map.euclidean_dist_squared(dst, path[start]) < r2 {
        return (0, 0);
    }
    let near = |t: TileRef| -> (close: bool)
        requires
            game@.map.valid(t),
        ensures
            close == game@.nearing(dst)(t),
        { game.map.euclidean_dist_squared(dst, t) < r2 };
    let end: usize = find_index(path, start + 1, near, Ghost(game@.nearing(dst)));
    if end >= path.len() {
        return (0, 0);
    }
    (start, end)
}

/// Whether a SAM launcher that is not excluded could shoot down a nuke.
pub fn is_trajectory_interceptable_by_sam(
    game: &Game,
    small_id: u16,
    spawn_tile: TileRef,
    target_tile: TileRef,
    excluded_sam_ids: &Vec<i32>,
) -> (interceptable: bool)
    requires
        game@.wf(),
        game@.map.valid(spawn_tile),
        game@.map.valid(target_tile),
    ensures
        interceptable == game@.interceptable(small_id, spawn_tile, target_tile, excluded_sam_ids@),
{
    let path = crate::parabola::find_path_tiles(
        &game.map,
        spawn_tile,
        target_tile,
        game.wire.nuke_speed,
        true,
        true,
    );
    let (start, end) = find_safe_part(game, &path, spawn_tile, target_tile);
    for i in 0..path.len()
        invariant
            game@.wf(),
            path@ == game@.map.flight(
                spawn_tile,
                target_tile,
                game@.config.nuke_speed as int,
                true,
                true,
            ),
            (start as int, end as int) == game@.safe_part(path@, spawn_tile, target_tile),
            forall|k: int| 0 <= k < path@.len() ==> game@.map.valid(#[trigger] path@[k]),
            forall|k: int|
                0 <= k < i ==> !(!(start <= k < end) && game@.covered(
                    small_id,
                    #[trigger] path@[k],
                    excluded_sam_ids@,
                )),
    {
        if !(start <= i && i < end) && is_covered(game, small_id, path[i], excluded_sam_ids) {
            assert(game@.covered(small_id, path@[i as int], excluded_sam_ids@));
            return true;
        }
    }
    false
}

/// What a structure in reach of a nuke is worth, in points for each level.
fn points_for(unit_type: UnitType) -> (points: i128)
    ensures
        points == structure_worth(unit_type),
        0 <= points <= 50_000,
{
    match unit_type {
        UnitType::City => 25_000,
        UnitType::DefensePost => 5_000,
        UnitType::MissileSilo => 50_000,
        UnitType::Port => 15_000,
        UnitType::Factory => 15_000,
        _ => 0,
    }
}

fn worth_of(game: &Game, tile: TileRef, outer: u32, units: &Vec<Unit>) -> (points: i128)
    requires
        game@.wf(),
        game@.map.valid(tile),
        outer <= 1000,
        forall|i: int|
            0 <= i < units@.len() ==> (#[trigger] units@[i]).wf() && game@.map.valid(units@[i].tile),
    ensures
        points == game@.worth(tile, outer as int, units@),
        0 <= points <= 500_000_000 * units@.len(),
{
    assert(outer * outer <= 1000 * 1000) by (nonlinear_arith)
        requires
            outer <= 1000,
    ;
    let outer2: u64 = outer as u64 * outer as u64;
    let mut points: i128 = 0;
    assert(units.len() <= 0xffff_ffff_ffff_ffff);
    assert(units@.take(0) =~= Seq::<Unit>::empty());
    for i in 0..units.len()
        invariant
            game@.wf(),
            game@.map.valid(tile),
            outer2 == outer * outer,
            units@.len() <= 0xffff_ffff_ffff_ffff,
            forall|k: int|
                0 <= k < units@.len() ==> (#[trigger] units@[k]).wf() && game@.map.valid(
                    units@[k].tile,
                ),
            points == game@.worth(tile, outer as int, units@.take(i as int)),
            0 <= points <= 500_000_000 * i,
    {
        assert(units@.take(i + 1).drop_last() =~= units@.take(i as int));
        let u: Unit = units[i];
        assert(units@[i as int] == u);
        if game.map.euclidean_dist_squared(tile, u.tile) <= outer2 {
            let each: i128 = points_for(u.unit_type);
            let level: i128 = u.level as i128;
            assert(0 <= each * level <= 500_000_000) by (nonlinear_arith)
                requires
                    0 <= each <= 50_000,
                    0 <= level <= 10_000,
            ;
            points = points + each * level;
        }
    }
    assert(units@.take(units@.len() as int) =~= units@);
    points
}

fn outranged_of(game: &Game, tile: TileRef, outer: u32) -> (points: i128)
    requires
        game@.wf(),
        game@.map.valid(tile),
        outer <= 1000,
    ensures
        points == game@.outranged(tile, outer as int, game@.units),
        0 <= points <= 500_000 * game@.units.len(),
{
    assert(outer * outer <= 1000 * 1000) by (nonlinear_arith)
        requires
            outer <= 1000,
    ;
    let outer2: u64 = outer as u64 * outer as u64;
    let mut points: i128 = 0;
    assert(game.units.len() <= 0xffff_ffff_ffff_ffff);
    assert(game@.units.take(0) =~= Seq::<Unit>::empty());
    for i in 0..game.units.len()
        invariant
            game@.wf(),
            game@.map.valid(tile),
            outer2 == outer * outer,
            game@.units.len() <= 0xffff_ffff_ffff_ffff,
            points == game@.outranged(tile, outer as int, game@.units.take(i as int)),
            0 <= points <= 500_000 * i,
    {
        assert(game@.units.take(i + 1).drop_last() =~= game@.units.take(i as int));
        let u: Unit = game.units[i];
        assert(game@.units[i as int] == u);
        let d2: u64 = game.map.euclidean_dist_squared(tile, u.tile);
        if u.unit_type == UnitType::SamLauncher && d2 <= outer2 && u.level < 5
            && !is_within_sam_range(d2, u.level) {
            points = points + 100_000 * u.level as i128;
        }
    }
    assert(game@.units.take(game@.units.len() as int) =~= game@.units);
    points
}

fn count_repeats(game: &Game, tile: TileRef, recent: &Vec<(u32, TileRef, UnitType)>) -> (n: i128)
    requires
        game@.wf(),
        game@.map.valid(tile),
        forall|i: int| 0 <= i < recent@.len() ==> game@.map.valid((#[trigger] recent@[i]).1),
    ensures
        n == game@.repeats(tile, recent@),
        0 <= n <= recent@.len(),
{
    let mut n: i128 = 0;
    assert(recent.len() <= 0xffff_ffff_ffff_ffff);
    assert(recent@.take(0) =~= Seq::<(u32, TileRef, UnitType)>::empty());
    for i in 0..recent.len()
        invariant
            game@.wf(),
            game@.map.valid(tile),
            recent@.len() <= 0xffff_ffff_ffff_ffff,
            forall|k: int| 0 <= k < recent@.len() ==> game@.map.valid((#[trigger] recent@[k]).1),
            n == game@.repeats(tile, recent@.take(i as int)),
            0 <= n <= i,
    {
        assert(recent@.take(i + 1).drop_last() =~= recent@.take(i as int));
        assert(game@.map.valid(recent@[i as int].1));
        let inner: u32 = game.wire.nuke_magnitudes(recent[i].2).inner;
        assert(inner * inner <= 1000 * 1000) by (nonlinear_arith)
            requires
                inner <= 1000,
        ;
        if game.map.euclidean_dist_squared(tile, recent[i].1) <= inner as u64 * inner as u64 {
            n = n + 1;
        }
    }
    assert(recent@.take(recent@.len() as int) =~= recent@);
    n
}

/// The score of a nuke at a tile, in thousandths of a point.
pub fn nuke_tile_score(
    game: &Game,
    tile: TileRef,
    silo_tiles: &Vec<TileRef>,
    targets: &Vec<Unit>,
    nuke_type: UnitType,
    recently_sent_nukes: &Vec<(u32, TileRef, UnitType)>,
) -> (score: i128)
    requires
        game@.wf(),
        game@.map.valid(tile),
        forall|i: int| 0 <= i < silo_tiles@.len() ==> game@.map.valid(#[trigger] silo_tiles@[i]),
        forall|i: int|
            0 <= i < targets@.len() ==> (#[trigger] targets@[i]).wf() && game@.map.valid(
                targets@[i].tile,
            ),
        forall|i: int|
            0 <= i < recently_sent_nukes@.len() ==> game@.map.valid(
                (#[trigger] recently_sent_nukes@[i]).1,
            ),
    ensures
        score == game@.nuke_score(
            tile,
            silo_tiles@,
            targets@,
            nuke_type,
            recently_sent_nukes@,
        ),
{
    if game.wire.difficulty == Difficulty::Medium {
        let accepts = |u: Unit| -> (near: bool)
            requires
                game@.map.valid(u.tile),
            ensures
                near == game@.guarded(tile)(u),
            {
                u.unit_type == UnitType::SamLauncher && game.map.euclidean_dist_squared(
                    tile,
                    u.tile,
                ) <= 2500
            };
        if crate::lists::any_by(targets, accepts, Ghost(game@.guarded(tile))) {
            return -SCORE_SCALE;
        }
    }
    assert(targets.len() <= 0xffff_ffff_ffff_ffff);
    assert(game.units.len() <= 0xffff_ffff_ffff_ffff);
    assert(recently_sent_nukes.len() <= 0xffff_ffff_ffff_ffff);
    let outer: u32 = game.wire.nuke_magnitudes(nuke_type).outer;
    let mut points: i128 = worth_of(game, tile, outer, targets);
    if game.wire.difficulty == Difficulty::Impossible && nuke_type == UnitType::HydrogenBomb {
        points = points + outranged_of(game, tile, outer);
    }
    let gain: i128 = SCORE_SCALE * points;
    if silo_tiles.len() == 0 {
        return gain;
    }
    let mut here: Vec<TileRef> = Vec::new();
    here.push(tile);
    assert(here@ =~= seq![tile]);
    let kept: i128 = match game.closest_two_tiles(silo_tiles, &here) {
        Some((silo, _)) => {
            let d2: u64 = game.map.euclidean_dist_squared(tile, silo);
            let penalty: i128 = square_root(900_000_000 * d2 as u128) as i128;
            let left: i128 = gain - penalty;
            if left < gain / 5 {
                gain / 5
            } else {
                left
            }
        },
        None => gain,
    };
    let repeats: i128 = count_repeats(game, tile, recently_sent_nukes);
    kept - SCORE_SCALE * 1_000_000 * repeats
}

/// Whether a nation would nuke a tile at all.
fn is_nukable(game: &Game, small_id: u16, nuke_target: u16, tile: TileRef, nuke_type: UnitType) -> (
    nukable: bool)
    requires
        game@.wf(),
        game@.map.valid(tile),
    ensures
        nukable == game@.nukable(small_id, nuke_target, tile, nuke_type),
{
    let outer: i32 = game.wire.nuke_magnitudes(nuke_type).outer as i32;
    let rim = bounding_box_tiles(game, tile, outer);
    if !all_fair(game, small_id, &rim, nuke_target) {
        return false;
    }
    let inner_rim = bounding_box_tiles(game, tile, outer / 2);
    if !all_fair(game, small_id, &inner_rim, nuke_target) {
        return false;
    }
    let src: TileRef = match can_build_nuke(game, small_id, nuke_type, tile) {
        Some(src) => src,
        None => {
            return false;
        },
    };
    if game.wire.game_mode == GameMode::Team && game.wire.difficulty != Difficulty::Easy
        && is_teammate_already_nuking_this_spot(game, small_id, tile, nuke_type) {
        return false;
    }
    let tough = game.wire.difficulty == Difficulty::Hard || game.wire.difficulty
        == Difficulty::Impossible;
    let none: Vec<i32> = Vec::new();
    !(tough && is_trajectory_interceptable_by_sam(game, small_id, src, tile, &none))
}

/// The tiles of units.
pub fn unit_tiles(units: &Vec<Unit>) -> (tiles: Vec<TileRef>)
    ensures
        tiles@ == units@.map_values(tile_of_unit()),
{
    let ghost f = tile_of_unit();
    let mut tiles: Vec<TileRef> = Vec::new();
    for i in 0..units.len()
        invariant
            f == tile_of_unit(),
            tiles@ == units@.take(i as int).map_values(f),
    {
        tiles.push(units[i].tile);
        assert(units@.take(i + 1).map_values(f) =~= units@.take(i as int).map_values(f).push(
            f(units@[i as int]),
        ));
    }
    proof {
        crate::lists::lemma_take_all(units@);
    }
    tiles
}

/// Sends a nuke.
pub fn send_nuke(
    game: &mut Game,
    random: &mut PseudoRandom,
    small_id: u16,
    nuke_state: &mut NationNukeState,
    emoji_state: &mut NationEmojiState,
    tile: TileRef,
    nuke_type: UnitType,
    target_player: u16,
    wait_ticks: u32,
)
    requires
        old(game).wf(),
        old(game)@.map.valid(tile),
        old(nuke_state)@.wf(old(game)@.map),
    ensures
        final(game).wf(),
        arsenal(*final(game), *final(random), *final(emoji_state), *final(nuke_state)) == arsenal(
            *old(game),
            *old(random),
            *old(emoji_state),
            *old(nuke_state),
        ).sending(small_id, tile, nuke_type, target_player, wait_ticks),
        final(game)@.map == old(game)@.map,
        final(nuke_state)@.wf(final(game)@.map),
{
    let tick: u32 = game.tick;
    nuke_state.recently_sent_nukes.push((tick, tile, nuke_type));
    if nuke_type == UnitType::AtomBomb {
        if nuke_state.atom_bombs_launched < u32::MAX {
            nuke_state.atom_bombs_launched = nuke_state.atom_bombs_launched + 1;
        }
        nuke_state.atom_bomb_perceived_cost = raise(nuke_state.atom_bomb_perceived_cost, 150);
    } else if nuke_type == UnitType::HydrogenBomb {
        if nuke_state.hydrogen_bombs_launched < u32::MAX {
            nuke_state.hydrogen_bombs_launched = nuke_state.hydrogen_bombs_launched + 1;
        }
        nuke_state.hydrogen_bomb_perceived_cost = raise(
            nuke_state.hydrogen_bomb_perceived_cost,
            125,
        );
    }
    game.add_execution(
        ExecEnum::Nuke(NukeExecution::new(nuke_type, small_id, tile, None, None, wait_ticks, true)),
    );
    maybe_send_emoji(random, game, small_id, emoji_state, Some(target_player), EMOJI_NUKE_LEN);
}

fn raise(cost: i64, percent: i64) -> (dearer: i64)
    requires
        0 <= cost <= MAX_PERCEIVED_COST,
        100 <= percent <= 150,
    ensures
        dearer == raised(cost as int, percent as int),
        0 <= dearer <= MAX_PERCEIVED_COST,
{
    assert(0 <= cost * percent <= 0x7fff_ffff_ffff_ffff * 150) by (nonlinear_arith)
        requires
            0 <= cost <= 0x7fff_ffff_ffff_ffff,
            0 <= percent <= 150,
    ;
    let scaled: i128 = cost as i128 * percent as i128 / 100;
    if scaled > MAX_PERCEIVED_COST as i128 {
        MAX_PERCEIVED_COST
    } else {
        scaled as i64
    }
}

/// The best tile for a nuke and its score.
pub(crate) fn find_best_spot(
    game: &Game,
    small_id: u16,
    nuke_target: u16,
    nuke_type: UnitType,
    recent: &Vec<(u32, TileRef, UnitType)>,
    tiles: &Vec<TileRef>,
) -> (best: (Option<TileRef>, i128))
    requires
        game@.wf(),
        forall|i: int| 0 <= i < tiles@.len() ==> game@.map.valid(#[trigger] tiles@[i]),
        forall|i: int| 0 <= i < recent@.len() ==> game@.map.valid((#[trigger] recent@[i]).1),
    ensures
        (best.0, best.1 as int) == game@.best_spot(
            small_id,
            nuke_target,
            nuke_type,
            recent@,
            tiles@,
        ),
        best.0 is Some ==> game@.map.valid(best.0->0),
{
    let silo_units = game.units_of_type(small_id, UnitType::MissileSilo);
    let silos = unit_tiles(&silo_units);
    assert forall|i: int| 0 <= i < silos@.len() implies game@.map.valid(#[trigger] silos@[i]) by {
        assert(silos@[i] == silo_units@[i].tile);
    }
    let structures = game.structures_of_player(nuke_target);
    let mut best: Option<TileRef> = None;
    let mut score: i128 = -SCORE_SCALE;
    assert(tiles@.take(0) =~= Seq::<TileRef>::empty());
    for i in 0..tiles.len()
        invariant
            game@.wf(),
            silos@ == game@.silo_tiles(small_id),
            structures@ == game@.structures_of(nuke_target),
            forall|k: int| 0 <= k < silos@.len() ==> game@.map.valid(#[trigger] silos@[k]),
            forall|k: int|
                0 <= k < structures@.len() ==> (#[trigger] structures@[k]).wf() && game@.map.valid(
                    structures@[k].tile,
                ),
            forall|k: int| 0 <= k < tiles@.len() ==> game@.map.valid(#[trigger] tiles@[k]),
            forall|k: int| 0 <= k < recent@.len() ==> game@.map.valid((#[trigger] recent@[k]).1),
            (best, score as int) == game@.best_spot(
                small_id,
                nuke_target,
                nuke_type,
                recent@,
                tiles@.take(i as int),
            ),
            best is Some ==> game@.map.valid(best->0),
    {
        assert(tiles@.take(i + 1).drop_last() =~= tiles@.take(i as int));
        let t: TileRef = tiles[i];
        assert(tiles@.take(i + 1).last() == t);
        if is_nukable(game, small_id, nuke_target, t, nuke_type) {
            let value: i128 = nuke_tile_score(game, t, &silos, &structures, nuke_type, recent);
            if value > score {
                best = Some(t);
                score = value;
            }
        }
    }
    assert(tiles@.take(tiles@.len() as int) =~= tiles@);
    (best, score)
}

/// The tiles that a nation thinks of nuking.
pub(crate) fn spots_to_nuke(game: &Game, random: &mut PseudoRandom, nuke_target: u16) -> (tiles: Vec<TileRef>)
    requires
        game@.wf(),
    ensures
        (tiles@, final(random).state) == game@.nuke_spots(old(random).state, nuke_target),
        forall|i: int| 0 <= i < tiles@.len() ==> game@.map.valid(#[trigger] tiles@[i]),
{
    let n: usize = if game.wire.difficulty == Difficulty::Impossible {
        30
    } else {
        10
    };
    let mut all = rand_territory_tile_array(game, random, nuke_target, n);
    let structures = game.structures_of_player(nuke_target);
    let mut more = unit_tiles(&structures);
    assert forall|i: int| 0 <= i < more@.len() implies game@.map.valid(#[trigger] more@[i]) by {
        assert(more@[i] == structures@[i].tile);
    }
    all.append(&mut more);
    distinct_tiles(game, &all)
}

/// Each tile once, in the order of first occurrence.
fn distinct_tiles(game: &Game, tiles: &Vec<TileRef>) -> (once: Vec<TileRef>)
    requires
        forall|i: int| 0 <= i < tiles@.len() ==> game@.map.valid(#[trigger] tiles@[i]),
    ensures
        once@ == crate::lists::distinct(tiles@),
        forall|i: int| 0 <= i < once@.len() ==> game@.map.valid(#[trigger] once@[i]),
{
    let mut once = crate::ordered_tiles::OrderedTiles::default();
    assert(tiles@.take(0) =~= Seq::<TileRef>::empty());
    for i in 0..tiles.len()
        invariant
            once.wf(),
            once@ == crate::lists::distinct(tiles@.take(i as int)),
            forall|k: int| 0 <= k < tiles@.len() ==> game@.map.valid(#[trigger] tiles@[k]),
            forall|k: int| 0 <= k < once@.len() ==> game@.map.valid(#[trigger] once@[k]),
    {
        assert(tiles@.take(i + 1).drop_last() =~= tiles@.take(i as int));
        assert(tiles@.take(i + 1).last() == tiles@[i as int]);
        once.insert(tiles[i]);
    }
    assert(tiles@.take(tiles@.len() as int) =~= tiles@);
    once.iter()
}

} // verus!
