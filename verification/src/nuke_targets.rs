//! Whom a nation nukes.

use vstd::prelude::*;

use crate::ai_strategy::find_incoming_attacker;
use crate::config::{Difficulty, GameMode};
use crate::game::{Game, GameView};
use crate::prng::PseudoRandom;
use crate::state::{PlayerType, Relation, TargetMark};

verus! {

/// Players with fewer structure levels are not thought dense.
pub const MIN_LEVEL_SUM_FOR_HIGH_DENSITY_NUKE: i128 = 5;

/// A player is dense that has more than one structure level to this many tiles.
pub const HIGH_DENSITY_TILES: i128 = 75;

impl GameView {
    pub open spec fn is_tough(self) -> bool {
        self.config.difficulty == Difficulty::Hard || self.config.difficulty
            == Difficulty::Impossible
    }

    /// Whether no other nation has more gold.
    pub open spec fn richest(self, sid: u16) -> bool {
        forall|i: int|
            0 <= i < self.alive_ids().len() ==> !(#[trigger] self.alive_ids()[i] != sid
                && self.of_type(self.alive_ids()[i], PlayerType::Nation) && self.gold(
                self.alive_ids()[i],
            ) > self.gold(sid))
    }

    /// The levels of a player's structures, added up.
    pub open spec fn structure_levels(self, sid: u16) -> int {
        crate::game_units::level_sum(self.structures_of(sid))
    }

    /// The densest of `ids` with its structure levels and tiles, of those that `sid` may
    /// nuke and that are dense at all.
    pub open spec fn densest(self, sid: u16, ids: Seq<u16>) -> (Option<u16>, int, int)
        decreases ids.len(),
    {
        if ids.len() == 0 {
            (None, 1, HIGH_DENSITY_TILES as int)
        } else {
            let (best, levels, tiles) = self.densest(sid, ids.drop_last());
            let id = ids.last();
            if id != sid && !self.of_type(id, PlayerType::Bot) && !self.is_friendly(sid, id)
                && self.tiles_owned(id) != 0 && self.structure_levels(id)
                >= MIN_LEVEL_SUM_FOR_HIGH_DENSITY_NUKE && self.structure_levels(id) * tiles > levels
                * self.tiles_owned(id) {
                (Some(id), self.structure_levels(id), self.tiles_owned(id))
            } else {
                (best, levels, tiles)
            }
        }
    }

    /// Players with their tiles, those with the most first.
    pub open spec fn by_tiles(self) -> spec_fn(u16) -> (i64, u16) {
        |id: u16| ((-self.tiles_owned(id)) as i64, id)
    }

    /// The living players, those with the most tiles first.
    pub open spec fn ranking(self) -> Seq<u16> {
        crate::lists::payloads(
            crate::lists::sort_by_key(self.alive_ids().map_values(self.by_tiles())),
        )
    }

    /// The leading player, where it holds more than half of the land and `sid` is neither
    /// it nor its friend.
    pub open spec fn tyrant(self, sid: u16) -> Option<u16> {
        if self.clean_land() > 0 && self.ranking().len() > 0 && self.ranking()[0] != sid
            && !self.is_friendly(sid, self.ranking()[0]) && self.tiles_owned(self.ranking()[0]) * 2
            > self.clean_land() {
            Some(self.ranking()[0])
        } else {
            None
        }
    }

    /// The marks that a player set.
    pub open spec fn marked_by(sid: u16) -> spec_fn(TargetMark) -> bool {
        |m: TargetMark| m.from == sid
    }

    /// The players whom a player marked as targets, oldest mark first.
    pub open spec fn marks_of(self, sid: u16) -> Seq<u16> {
        self.targets.filter(GameView::marked_by(sid)).map_values(|m: TargetMark| m.target)
    }

    /// Others who are no friends.
    pub open spec fn foe_of(self, sid: u16) -> spec_fn(u16) -> bool {
        |id: u16| id != sid && !self.is_friendly(sid, id)
    }

    /// The target of an ally that `sid` would nuke for it.
    pub open spec fn favor(self, sid: u16, ally: u16) -> Option<u16> {
        if self.relation(sid, ally).rank() >= Relation::Friendly.rank() {
            crate::lists::first_where(self.marks_of(ally), self.foe_of(sid))
        } else {
            None
        }
    }

    /// The first target of one of `allies` that `sid` would nuke for it.
    pub open spec fn favors(self, sid: u16, allies: Seq<u16>) -> Option<u16>
        decreases allies.len(),
    {
        if allies.len() == 0 {
            None
        } else {
            match self.favor(sid, allies[0]) {
                Some(t) => Some(t),
                None => self.favors(sid, allies.skip(1)),
            }
        }
    }

    /// Those whom `sid` hates and who are not far smaller.
    pub open spec fn hated_equal(self, sid: u16) -> spec_fn(u16) -> bool {
        |id: u16|
            self.relation(sid, id) == Relation::Hostile && !self.is_friendly(sid, id)
                && self.max_troops_milli(sid) < self.max_troops_milli(id) * 2
    }

    /// The lead in tenths of the land from which the leading player is nuked.
    pub open spec fn lead_limit(self) -> int {
        match self.config.difficulty {
            Difficulty::Easy => 4,
            Difficulty::Medium => 3,
            Difficulty::Hard => 2,
            Difficulty::Impossible => 1,
            Difficulty::Other => 3,
        }
    }

    /// The leading player, where its lead is too large; the second where `sid` itself
    /// leads on the highest difficulty.
    pub open spec fn crown_target(self, sid: u16) -> Option<u16> {
        let ranking = self.ranking();
        if self.config.is_team() || ranking.len() <= 1 {
            None
        } else if self.config.difficulty == Difficulty::Impossible && ranking[0] == sid
            && !self.is_friendly(sid, ranking[1]) {
            Some(ranking[1])
        } else if ranking[0] == sid || self.is_friendly(sid, ranking[0]) || self.clean_land() <= 0 {
            None
        } else if (self.tiles_owned(ranking[0]) - self.tiles_owned(sid)) * 10 > self.clean_land()
            * self.lead_limit() {
            Some(ranking[0])
        } else {
            None
        }
    }

    /// Whether two players have the same team.
    pub open spec fn teamed(self, a: u16, b: u16) -> bool {
        self.has(a) && self.has(b) && crate::state::same_team(
            self.player(a).team,
            self.player(b).team,
        )
    }

    /// The first member in `ids` of each team.
    pub open spec fn captains(self, ids: Seq<u16>) -> Seq<u16>
        decreases ids.len(),
    {
        if ids.len() == 0 {
            Seq::empty()
        } else {
            let held = self.captains(ids.drop_last());
            let id = ids.last();
            if self.teamed(id, id) && !crate::lists::some_where(held, self.mate_of(id)) {
                held.push(id)
            } else {
                held
            }
        }
    }

    pub open spec fn mate_of(self, id: u16) -> spec_fn(u16) -> bool {
        |other: u16| self.teamed(other, id)
    }

    /// The tiles of the members of a team in `ids`, added up.
    pub open spec fn team_tiles(self, captain: u16, ids: Seq<u16>) -> int
        decreases ids.len(),
    {
        if ids.len() == 0 {
            0
        } else {
            self.team_tiles(captain, ids.drop_last()) + (if self.teamed(ids.last(), captain) {
                self.tiles_owned(ids.last())
            } else {
                0
            })
        }
    }

    /// Teams with their tiles, those with the most first.
    pub open spec fn by_team_tiles(self) -> spec_fn(u16) -> (i64, u16) {
        |id: u16| ((-self.team_tiles(id, self.alive_ids())) as i64, id)
    }

    /// The first members of the teams, the team with the most tiles first.
    pub open spec fn team_ranking(self) -> Seq<u16> {
        crate::lists::payloads(
            crate::lists::sort_by_key(
                self.captains(self.alive_ids()).map_values(self.by_team_tiles()),
            ),
        )
    }

    /// Teams that `sid` is not in.
    pub open spec fn other_team(self, sid: u16) -> spec_fn(u16) -> bool {
        |id: u16| !self.teamed(sid, id)
    }

    /// Members of a team that are no friends of `sid`.
    pub open spec fn hostile_mate(self, sid: u16, captain: u16) -> spec_fn(u16) -> bool {
        |id: u16| self.teamed(id, captain) && !self.is_friendly(sid, id)
    }

    /// The one of `ids` with the largest troop limit, the last where several have it.
    pub open spec fn largest_limit(self, ids: Seq<u16>) -> u16
        decreases ids.len(),
    {
        if ids.len() <= 1 {
            ids[0]
        } else if self.max_troops_milli(self.largest_limit(ids.drop_last()))
            > self.max_troops_milli(ids.last()) {
            self.largest_limit(ids.drop_last())
        } else {
            ids.last()
        }
    }

    /// The members of the strongest other team that `sid` may nuke.
    pub open spec fn team_targets(self, sid: u16) -> Seq<u16> {
        match crate::lists::first_where(self.team_ranking(), self.other_team(sid)) {
            Some(captain) => self.alive_ids().filter(self.hostile_mate(sid, captain)),
            None => Seq::empty(),
        }
    }

    /// A member of the strongest other team, and the random state after it was chosen:
    /// half of the time the one with the largest troop limit.
    pub open spec fn team_target(self, rng: u64, sid: u16) -> (Option<u16>, u64) {
        let targets = self.team_targets(sid);
        if !self.config.is_team() || self.alive_ids().len() <= 1 || targets.len() == 0 {
            (None, rng)
        } else if crate::prng::chance_drawn(rng, 2) {
            (Some(self.largest_limit(targets)), crate::prng::next_state(rng))
        } else {
            crate::prng::element_drawn(crate::prng::next_state(rng), targets)
        }
    }

    /// Whom a nation nukes where none of the more pressing reasons holds.
    pub open spec fn grudge_target(self, rng: u64, sid: u16) -> (Option<u16>, u64) {
        let tyrant = if self.config.difficulty == Difficulty::Impossible && !self.config.is_team() {
            self.tyrant(sid)
        } else {
            None
        };
        let favor = self.favors(sid, self.allies(sid));
        let hated = crate::lists::first_where(self.relations_sorted(sid), self.hated_equal(sid));
        if tyrant is Some {
            (tyrant, rng)
        } else if favor is Some {
            (favor, rng)
        } else if hated is Some {
            (hated, rng)
        } else if self.crown_target(sid) is Some {
            (self.crown_target(sid), rng)
        } else {
            self.team_target(rng, sid)
        }
    }

    /// Whom a nation nukes, and the random state after it decided.
    pub open spec fn nuke_target(self, rng: u64, sid: u16) -> (Option<u16>, u64) {
        let last = crate::lists::first_where(self.alive_ids(), crate::ai_attack::is_not(sid));
        if self.is_tough() && self.alive_ids().len() == 2 && last is Some {
            (last, rng)
        } else if self.main_attacker(sid) is Some {
            (self.main_attacker(sid), rng)
        } else if self.config.difficulty == Difficulty::Impossible && self.richest(sid) {
            let next = crate::prng::next_state(rng);
            if crate::prng::chance_drawn(rng, 2) && self.densest(sid, self.alive_ids()).0 is Some {
                (self.densest(sid, self.alive_ids()).0, next)
            } else {
                self.grudge_target(next, sid)
            }
        } else {
            self.grudge_target(rng, sid)
        }
    }
}

/// Whether no other nation has more gold.
pub fn is_richest_nation(game: &Game, small_id: u16) -> (richest: bool)
    requires
        game@.wf(),
    ensures
        richest == game@.richest(small_id),
{
    let own: i64 = game.gold_of(small_id);
    let ids = game.players_alive();
    for i in 0..ids.len()
        invariant
            game@.wf(),
            own == game@.gold(small_id),
            ids@ == game@.alive_ids(),
            forall|k: int|
                0 <= k < i ==> !(#[trigger] ids@[k] != small_id && game@.of_type(
                    ids@[k],
                    PlayerType::Nation,
                ) && game@.gold(ids@[k]) > own),
    {
        let id: u16 = ids[i];
        if id != small_id && game.is_of_type(id, PlayerType::Nation) && game.gold_of(id) > own {
            assert(ids@[i as int] == game@.alive_ids()[i as int]);
            return false;
        }
    }
    true
}

/// The player with the most structures to a tile, where that is a lot.
pub fn find_high_density_target(game: &Game, small_id: u16) -> (target: Option<u16>)
    requires
        game@.wf(),
    ensures
        target == game@.densest(small_id, game@.alive_ids()).0,
{
    let ids = game.players_alive();
    let mut best: Option<u16> = None;
    let mut best_levels: i128 = 1;
    let mut best_tiles: i128 = HIGH_DENSITY_TILES;
    assert(game.units.len() <= 0xffff_ffff_ffff_ffff);
    assert(ids@.take(0) =~= Seq::<u16>::empty());
    for i in 0..ids.len()
        invariant
            game@.wf(),
            game.units@.len() <= 0xffff_ffff_ffff_ffff,
            (best, best_levels as int, best_tiles as int) == game@.densest(
                small_id,
                ids@.take(i as int),
            ),
            1 <= best_levels <= 10_000 * 0xffff_ffff_ffff_ffff,
            1 <= best_tiles <= 0xfffe_0001,
    {
        assert(ids@.take(i + 1).drop_last() =~= ids@.take(i as int));
        let id: u16 = ids[i];
        let tiles: i128 = game.tiles_of(id) as i128;
        if id != small_id && !game.is_of_type(id, PlayerType::Bot) && !game.is_friendly(
            small_id,
            id,
        ) && tiles != 0 {
            let units = game.structures_of_player(id);
            let levels: i128 = crate::game_units::total_level(&units);
            assert(0 <= levels * best_tiles <= 10_000 * 0xffff_ffff_ffff_ffff * 0xfffe_0001)
                by (nonlinear_arith)
                requires
                    0 <= levels <= 10_000 * 0xffff_ffff_ffff_ffff,
                    0 <= best_tiles <= 0xfffe_0001,
            ;
            assert(0 <= best_levels * tiles <= 10_000 * 0xffff_ffff_ffff_ffff * 0xfffe_0001)
                by (nonlinear_arith)
                requires
                    0 <= best_levels <= 10_000 * 0xffff_ffff_ffff_ffff,
                    0 <= tiles <= 0xfffe_0001,
            ;
            if levels >= MIN_LEVEL_SUM_FOR_HIGH_DENSITY_NUKE && levels * best_tiles > best_levels
                * tiles {
                best = Some(id);
                best_levels = levels;
                best_tiles = tiles;
            }
        }
    }
    assert(ids@.take(ids@.len() as int) =~= ids@);
    best
}

/// The living players, those with the most tiles first.
pub fn players_by_tiles(game: &Game) -> (ids: Vec<u16>)
    requires
        game@.wf(),
    ensures
        ids@ == game@.ranking(),
{
    let alive = game.players_alive();
    let ghost key = game@.by_tiles();
    let mut keyed: Vec<(i64, u16)> = Vec::new();
    for i in 0..alive.len()
        invariant
            game@.wf(),
            key == game@.by_tiles(),
            keyed@ == alive@.take(i as int).map_values(key),
    {
        keyed.push((-game.tiles_of(alive[i]), alive[i]));
        assert(alive@.take(i + 1).map_values(key) =~= alive@.take(i as int).map_values(key).push(
            key(alive@[i as int]),
        ));
    }
    proof {
        crate::lists::lemma_take_all(alive@);
    }
    crate::lists::sorted_payloads(&keyed)
}

/// The number of land tiles without fallout.
pub fn tiles_without_fallout(game: &Game) -> (n: i64)
    requires
        game@.wf(),
    ensures
        n == game@.clean_land(),
        -0x1_0000_0000 < n < 0x1_0000_0000,
{
    game.num_land_tiles() as i64 - game.num_tiles_with_fallout() as i64
}

fn find_tyrant(game: &Game, small_id: u16) -> (tyrant: Option<u16>)
    requires
        game@.wf(),
    ensures
        tyrant == game@.tyrant(small_id),
{
    let land: i64 = tiles_without_fallout(game);
    if land <= 0 {
        return None;
    }
    let ranking = players_by_tiles(game);
    if ranking.len() == 0 {
        return None;
    }
    let first: u16 = ranking[0];
    if first != small_id && !game.is_friendly(small_id, first) && game.tiles_of(first) * 2 > land {
        Some(first)
    } else {
        None
    }
}

impl Game {
    /// The players whom a player marked as targets, oldest mark first.
    pub fn player_targets(&self, sid: u16) -> (targets: Vec<u16>)
        ensures
            targets@ == self@.marks_of(sid),
    {
        let ghost p = GameView::marked_by(sid);
        let ghost f = |m: TargetMark| m.target;
        let mut targets: Vec<u16> = Vec::new();
        assert(self.targets@.take(0).filter(p).map_values(f) =~= Seq::empty()) by {
            reveal(Seq::filter);
        }
        for i in 0..self.targets.len()
            invariant
                p == GameView::marked_by(sid),
                f == (|m: TargetMark| m.target),
                targets@ == self.targets@.take(i as int).filter(p).map_values(f),
        {
            let m: TargetMark = self.targets[i];
            let ghost held = self.targets@.take(i as int).filter(p);
            proof {
                crate::lists::lemma_filter_step(self.targets@, p, i as int);
            }
            if m.from == sid {
                targets.push(m.target);
                assert(held.push(m).map_values(f) =~= held.map_values(f).push(f(m)));
            }
        }
        proof {
            crate::lists::lemma_take_all(self.targets@);
        }
        targets
    }
}

/// The first target of an ally that a nation would nuke for it.
fn find_favor(game: &Game, small_id: u16) -> (target: Option<u16>)
    requires
        game@.wf(),
    ensures
        target == game@.favors(small_id, game@.allies(small_id)),
{
    let allies = game.allied_small_ids(small_id);
    assert(allies@.skip(0) =~= allies@);
    for i in 0..allies.len()
        invariant
            game@.wf(),
            allies@ == game@.allies(small_id),
            game@.favors(small_id, allies@) == game@.favors(small_id, allies@.skip(i as int)),
    {
        let ally: u16 = allies[i];
        assert(allies@.skip(i as int)[0] == ally);
        assert(allies@.skip(i as int).skip(1) =~= allies@.skip(i + 1));
        if game.relation(small_id, ally).is_at_least(Relation::Friendly) {
            let marks = game.player_targets(ally);
            let accepts = |id: u16| -> (foe: bool)
                ensures
                    foe == (id != small_id && !game@.is_friendly(small_id, id)),
                { id != small_id && !game.is_friendly(small_id, id) };
            let found = crate::lists::find_by(&marks, accepts, Ghost(game@.foe_of(small_id)));
            if found.is_some() {
                return found;
            }
        }
    }
    None
}

fn find_hated_equal(game: &Game, small_id: u16) -> (target: Option<u16>)
    requires
        game@.wf(),
    ensures
        target == crate::lists::first_where(
            game@.relations_sorted(small_id),
            game@.hated_equal(small_id),
        ),
{
    let others = game.all_relations_sorted(small_id);
    let own: i64 = game.max_troops_for(small_id);
    let accepts = |id: u16| -> (hated: bool)
        ensures
            hated == (game@.relation(small_id, id) == Relation::Hostile && !game@.is_friendly(
                small_id,
                id,
            ) && game@.max_troops_milli(small_id) < game@.max_troops_milli(id) * 2),
        {
            game.relation(small_id, id) == Relation::Hostile && !game.is_friendly(small_id, id)
                && own < game.max_troops_for(id) * 2
        };
    crate::lists::find_by(&others, accepts, Ghost(game@.hated_equal(small_id)))
}

/// The leading player, where its lead is too large.
pub fn find_ffa_crown_target(game: &Game, small_id: u16) -> (target: Option<u16>)
    requires
        game@.wf(),
    ensures
        target == game@.crown_target(small_id),
{
    if game.wire.game_mode == GameMode::Team {
        return None;
    }
    let ranking = players_by_tiles(game);
    if ranking.len() <= 1 {
        return None;
    }
    let first: u16 = ranking[0];
    if game.wire.difficulty == Difficulty::Impossible && first == small_id && !game.is_friendly(
        small_id,
        ranking[1],
    ) {
        return Some(ranking[1]);
    }
    if first == small_id || game.is_friendly(small_id, first) {
        return None;
    }
    let land: i64 = tiles_without_fallout(game);
    if land <= 0 {
        return None;
    }
    let limit: i64 = match game.wire.difficulty {
        Difficulty::Easy => 4,
        Difficulty::Medium => 3,
        Difficulty::Hard => 2,
        Difficulty::Impossible => 1,
        Difficulty::Other => 3,
    };
    if (game.tiles_of(first) - game.tiles_of(small_id)) * 10 > land * limit {
        Some(first)
    } else {
        None
    }
}

/// Whether two players have the same team.
pub(crate) fn are_teamed(game: &Game, a: u16, b: u16) -> (same: bool)
    ensures
        same == game@.teamed(a, b),
{
    match (game.player_by_small_id(a), game.player_by_small_id(b)) {
        (Some(p), Some(q)) => crate::state::is_same_team(&p.team, &q.team),
        _ => false,
    }
}

/// The first member of each team.
fn team_captains(game: &Game, ids: &Vec<u16>) -> (captains: Vec<u16>)
    requires
        game@.wf(),
    ensures
        captains@ == game@.captains(ids@),
{
    let mut captains: Vec<u16> = Vec::new();
    assert(ids@.take(0) =~= Seq::<u16>::empty());
    for i in 0..ids.len()
        invariant
            game@.wf(),
            captains@ == game@.captains(ids@.take(i as int)),
    {
        assert(ids@.take(i + 1).drop_last() =~= ids@.take(i as int));
        let id: u16 = ids[i];
        if are_teamed(game, id, id) {
            let accepts = |other: u16| -> (mate: bool)
                ensures
                    mate == game@.teamed(other, id),
                { are_teamed(game, other, id) };
            if !crate::lists::any_by(&captains, accepts, Ghost(game@.mate_of(id))) {
                captains.push(id);
            }
        }
    }
    assert(ids@.take(ids@.len() as int) =~= ids@);
    captains
}

/// The tiles of a team.
pub(crate) fn tiles_of_team(game: &Game, captain: u16, ids: &Vec<u16>) -> (tiles: i64)
    requires
        game@.wf(),
        ids@.len() <= 65_535,
    ensures
        tiles == game@.team_tiles(captain, ids@),
        0 <= tiles <= 65_535 * 0xfffe_0001,
{
    let mut tiles: i64 = 0;
    assert(ids@.take(0) =~= Seq::<u16>::empty());
    for i in 0..ids.len()
        invariant
            game@.wf(),
            ids@.len() <= 65_535,
            tiles == game@.team_tiles(captain, ids@.take(i as int)),
            0 <= tiles <= i * 0xfffe_0001,
    {
        assert(ids@.take(i + 1).drop_last() =~= ids@.take(i as int));
        if are_teamed(game, ids[i], captain) {
            tiles = tiles + game.tiles_of(ids[i]);
        }
    }
    assert(ids@.take(ids@.len() as int) =~= ids@);
    tiles
}

/// The first members of the teams, the team with the most tiles first.
fn teams_by_tiles(game: &Game) -> (captains: Vec<u16>)
    requires
        game@.wf(),
    ensures
        captains@ == game@.team_ranking(),
{
    let alive = game.players_alive();
    let captains = team_captains(game, &alive);
    let ghost key = game@.by_team_tiles();
    let mut keyed: Vec<(i64, u16)> = Vec::new();
    for i in 0..captains.len()
        invariant
            game@.wf(),
            alive@ == game@.alive_ids(),
            alive@.len() <= 65_535,
            key == game@.by_team_tiles(),
            keyed@ == captains@.take(i as int).map_values(key),
    {
        let tiles: i64 = tiles_of_team(game, captains[i], &alive);
        keyed.push((-tiles, captains[i]));
        assert(captains@.take(i + 1).map_values(key) =~= captains@.take(i as int).map_values(
            key,
        ).push(key(captains@[i as int])));
    }
    proof {
        crate::lists::lemma_take_all(captains@);
    }
    crate::lists::sorted_payloads(&keyed)
}

/// The one with the largest troop limit.
fn largest_by_limit(game: &Game, ids: &Vec<u16>) -> (largest: u16)
    requires
        game@.wf(),
        ids@.len() > 0,
    ensures
        largest == game@.largest_limit(ids@),
{
    let mut best: u16 = ids[0];
    assert(ids@.take(1)[0] == ids@[0]);
    for i in 1..ids.len()
        invariant
            game@.wf(),
            ids@.len() > 0,
            best == game@.largest_limit(ids@.take(i as int)),
    {
        assert(ids@.take(i + 1).drop_last() =~= ids@.take(i as int));
        if game.max_troops_for(best) <= game.max_troops_for(ids[i]) {
            best = ids[i];
        }
    }
    assert(ids@.take(ids@.len() as int) =~= ids@);
    best
}

/// A member of the strongest other team.
pub fn find_strongest_team_target(game: &Game, random: &mut PseudoRandom, small_id: u16) -> (target:
    Option<u16>)
    requires
        game@.wf(),
    ensures
        (target, final(random).state) == game@.team_target(old(random).state, small_id),
{
    if game.wire.game_mode != GameMode::Team {
        return None;
    }
    let alive = game.players_alive();
    if alive.len() <= 1 {
        return None;
    }
    let teams = teams_by_tiles(game);
    let accepts = |id: u16| -> (other: bool)
        ensures
            other == !game@.teamed(small_id, id),
        { !are_teamed(game, small_id, id) };
    let captain: u16 = match crate::lists::find_by(
        &teams,
        accepts,
        Ghost(game@.other_team(small_id)),
    ) {
        Some(captain) => captain,
        None => {
            return None;
        },
    };
    let hostile = |id: u16| -> (mate: bool)
        ensures
            mate == (game@.teamed(id, captain) && !game@.is_friendly(small_id, id)),
        { are_teamed(game, id, captain) && !game.is_friendly(small_id, id) };
    let targets = crate::lists::filter_by(
        &alive,
        hostile,
        Ghost(game@.hostile_mate(small_id, captain)),
    );
    if targets.len() == 0 {
        return None;
    }
    if random.chance(2) {
        Some(largest_by_limit(game, &targets))
    } else {
        random.rand_element(targets.as_slice())
    }
}

fn find_grudge_target(game: &Game, random: &mut PseudoRandom, small_id: u16) -> (target: Option<u16>)
    requires
        game@.wf(),
    ensures
        (target, final(random).state) == game@.grudge_target(old(random).state, small_id),
{
    if game.wire.difficulty == Difficulty::Impossible && game.wire.game_mode != GameMode::Team {
        let tyrant = find_tyrant(game, small_id);
        if tyrant.is_some() {
            return tyrant;
        }
    }
    let favor = find_favor(game, small_id);
    if favor.is_some() {
        return favor;
    }
    let hated = find_hated_equal(game, small_id);
    if hated.is_some() {
        return hated;
    }
    let crown = find_ffa_crown_target(game, small_id);
    if crown.is_some() {
        return crown;
    }
    find_strongest_team_target(game, random, small_id)
}

/// Whom a nation nukes.
pub fn find_best_nuke_target(game: &Game, random: &mut PseudoRandom, small_id: u16) -> (target: Option<
    u16,
>)
    requires
        game@.wf(),
    ensures
        (target, final(random).state) == game@.nuke_target(old(random).state, small_id),
{
    let tough = game.wire.difficulty == Difficulty::Hard || game.wire.difficulty
        == Difficulty::Impossible;
    let alive = game.players_alive();
    if tough && alive.len() == 2 {
        let accepts = |id: u16| -> (other: bool)
            ensures
                other == (id != small_id),
            { id != small_id };
        let last = crate::lists::find_by(&alive, accepts, Ghost(crate::ai_attack::is_not(small_id)));
        if last.is_some() {
            return last;
        }
    }
    let attacker = find_incoming_attacker(game, small_id);
    if attacker.is_some() {
        return attacker;
    }
    if game.wire.difficulty == Difficulty::Impossible && is_richest_nation(game, small_id) {
        if random.chance(2) {
            let dense = find_high_density_target(game, small_id);
            if dense.is_some() {
                return dense;
            }
        }
    }
    find_grudge_target(game, random, small_id)
}

} // verus!
