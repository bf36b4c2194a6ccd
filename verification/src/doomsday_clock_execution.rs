//! The doomsday clock.

use vstd::prelude::*;

use crate::config::{GameMode, TROOP_SCALE};
use crate::execution::Execution;
use crate::game::{Game, GameView};
use crate::orders::Order;
use crate::state::{Player, PlayerType, Unit};
use crate::unit_type::UnitType;

verus! {

/// The clock that wears down those who hold too little land.
pub struct DoomsdayClockExecution {
    pub active: bool,
}

impl DoomsdayClockExecution {
    /// What the execution was created with.
    pub open spec fn order(&self) -> Order {
        Order::DoomsdayClock
    }

    pub fn new() -> (execution: Self)
        ensures
            execution.active,
    {
        DoomsdayClockExecution { active: true }
    }
}

impl Default for DoomsdayClockExecution {
    fn default() -> (execution: Self)
        ensures
            execution.active,
    {
        Self::new()
    }
}

/// The health of a warship that is not damaged.
pub const WARSHIP_MAX_HEALTH: i64 = 1000;

/// The percentage that is drained after some seconds: it rises from the first to the last.
pub open spec fn drain_percent(seconds: int, start: int, end: int, ramp: int) -> int {
    start + (end - start) * (if seconds < ramp {
        seconds
    } else {
        ramp
    }) / ramp
}

/// What is drained of `whole` after some seconds, in parts of `scale` rounded down.
pub fn doomsday_clock_drain(whole: i64, scale: i64, seconds: i64, start: i64, end: i64, ramp: i64) -> (
    drained: i64)
    requires
        0 <= whole <= 1_000_000_000_000,
        1 <= scale <= 1000,
        0 <= seconds,
        0 <= start <= end <= 100,
        0 < ramp <= 1_000_000,
    ensures
        drained == whole * drain_percent(seconds as int, start as int, end as int, ramp as int) / (
        100 * scale),
        0 <= drained <= whole,
        drained * scale <= whole,
{
    let t: i64 = if seconds < ramp {
        seconds
    } else {
        ramp
    };
    assert(0 <= (end - start) * t <= 100 * 1_000_000) by (nonlinear_arith)
        requires
            0 <= end - start <= 100,
            0 <= t <= 1_000_000,
    ;
    assert(0 <= (end - start) * t <= (end - start) * ramp) by (nonlinear_arith)
        requires
            0 <= end - start,
            0 <= t <= ramp,
    ;
    assert(0 <= ((end - start) * t) / (ramp as int) <= end - start) by (nonlinear_arith)
        requires
            0 <= (end - start) * t <= (end - start) * ramp,
            ramp > 0,
    ;
    let percent: i64 = start + (end - start) * t / ramp;
    assert(0 <= whole * percent <= 100 * whole) by (nonlinear_arith)
        requires
            0 <= whole,
            0 <= percent <= 100,
    ;
    assert(0 <= (whole * percent) / (100 * scale) <= whole) by (nonlinear_arith)
        requires
            0 <= whole * percent <= 100 * whole,
            scale >= 1,
            whole >= 0,
    ;
    let drained: i64 = whole * percent / (100 * scale);
    assert(drained * scale <= whole) by (nonlinear_arith)
        requires
            drained == (whole * percent) / (100 * scale),
            0 <= whole * percent <= 100 * whole,
            scale >= 1,
    ;
    drained
}

/// Players that the clock is for.
pub open spec fn contends(game: GameView) -> spec_fn(u16) -> bool {
    |id: u16| !game.of_type(id, PlayerType::Bot)
}

/// The first of the largest of some numbers.
pub open spec fn first_largest(tiles: Seq<int>) -> int
    decreases tiles.len(),
{
    if tiles.len() <= 1 {
        0
    } else {
        let at = first_largest(tiles.drop_last());
        if tiles.last() > tiles[at] {
            tiles.len() - 1
        } else {
            at
        }
    }
}

impl GameView {
    /// Players who contend: those alive that are no bots.
    pub open spec fn contenders(self) -> Seq<u16> {
        self.alive_ids().filter(contends(self))
    }

    pub open spec fn teammates(self, a: u16, b: u16) -> bool {
        self.has(a) && self.has(b) && crate::state::same_team(self.player(a).team, self.player(b).team)
    }

    /// The position of the side that a player belongs to, or the length.
    pub open spec fn side_at(self, sides: Seq<Seq<u16>>, id: u16) -> int
        decreases sides.len(),
    {
        if sides.len() == 0 {
            0
        } else if self.teammates(sides[0][0], id) {
            0
        } else {
            1 + self.side_at(sides.skip(1), id)
        }
    }

    /// The sides of a team game: the members of each team. Who is in none is on no side.
    pub open spec fn teams(self, ids: Seq<u16>) -> Seq<Seq<u16>>
        decreases ids.len(),
    {
        if ids.len() == 0 {
            Seq::empty()
        } else {
            let before = self.teams(ids.drop_last());
            let id = ids.last();
            let at = self.side_at(before, id);
            if !self.has(id) || self.player(id).team is None {
                before
            } else if at < before.len() {
                before.update(at, before[at].push(id))
            } else {
                before.push(seq![id])
            }
        }
    }

    /// The sides of the game: each player its own, or the teams.
    pub open spec fn sides(self, ids: Seq<u16>) -> Seq<Seq<u16>> {
        if self.config.game_mode == GameMode::FreeForAll {
            ids.map_values(|id: u16| seq![id])
        } else {
            self.teams(ids)
        }
    }

    pub open spec fn tiles_of_side(self, ids: Seq<u16>) -> int
        decreases ids.len(),
    {
        if ids.len() == 0 {
            0
        } else {
            self.tiles_of_side(ids.drop_last()) + self.tiles_owned(ids.last())
        }
    }

    pub open spec fn side_tiles(self, sides: Seq<Seq<u16>>) -> Seq<int> {
        Seq::new(sides.len(), |i: int| self.tiles_of_side(sides[i]))
    }

    /// The land that counts: what is not contaminated.
    pub open spec fn contested_land(self) -> int {
        if self.clean_land() > 0 {
            self.clean_land()
        } else {
            0
        }
    }

    /// The tiles that a side of so many players must hold.
    pub open spec fn required_tiles(self, members: int) -> int {
        self.contested_land() * self.config.doomsday_bar * members / 10_000
    }

    /// Whether the clock runs against a player.
    pub open spec fn is_doomed(self, sid: u16) -> bool {
        self.is_alive(sid) && self.player(sid).doomsday_since is Some
    }

    /// The game after the clock started to run against a player.
    pub open spec fn entering_doom(self, sid: u16) -> GameView {
        if self.is_alive(sid) && self.player(sid).doomsday_since is None {
            self.with_player(sid, Player { doomsday_since: Some(self.tick), ..self.player(sid) })
        } else {
            self
        }
    }

    /// The game after the clock no longer runs against a player.
    pub open spec fn clearing_doom(self, sid: u16) -> GameView {
        if self.is_alive(sid) {
            self.with_player(sid, Player { doomsday_since: None, ..self.player(sid) })
        } else {
            self
        }
    }

    /// The ticks for which the clock has run against a player.
    pub open spec fn doomed_ticks(self, sid: u16) -> int {
        if self.is_doomed(sid) {
            self.tick - self.player(sid).doomsday_since->0
        } else {
            0
        }
    }

    /// The game after a ship lost health; one without any sinks.
    pub open spec fn wearing(self, sid: u16, id: i32, damage: int) -> GameView {
        match self.unit(sid, id) {
            Some(u) => if u.health > damage {
                self.with_unit(sid, id, Unit { health: (u.health - damage) as i64, ..u })
            } else {
                self.without_unit(sid, id)
            },
            None => self,
        }
    }

    pub open spec fn wearing_all(self, sid: u16, ships: Seq<Unit>, damage: int) -> GameView
        decreases ships.len(),
    {
        if ships.len() == 0 {
            self
        } else {
            self.wearing_all(sid, ships.drop_last(), damage).wearing(sid, ships.last().id, damage)
        }
    }

    /// The troops that the clock takes from a player after some seconds, whole ones.
    pub open spec fn troop_drain(self, sid: u16, seconds: int) -> int {
        self.max_troops_milli(sid) * drain_percent(
            seconds,
            self.config.doomsday.drain_start_percent as int,
            self.config.doomsday.drain_max_percent as int,
            self.config.doomsday.drain_ramp_seconds as int,
        ) / 100_000
    }

    /// The health that the clock takes from a warship after some seconds.
    pub open spec fn warship_drain(self, seconds: int) -> int {
        WARSHIP_MAX_HEALTH * drain_percent(
            seconds,
            self.config.doomsday.drain_start_percent as int,
            self.config.doomsday.warship_drain_max_percent as int,
            self.config.doomsday.drain_ramp_seconds as int,
        ) / 100
    }

    /// The game after the clock took troops and health from a player.
    pub open spec fn draining(self, sid: u16, seconds: int) -> GameView {
        let bled = self.losing(sid, self.troop_drain(sid, seconds) * TROOP_SCALE);
        bled.wearing_all(
            sid,
            bled.units_of(sid, UnitType::Warship),
            self.warship_drain(seconds),
        )
    }

    /// The game after the clock ran a second against a player: first it only warns.
    pub open spec fn dooming(self, sid: u16) -> GameView {
        let entered = self.entering_doom(sid);
        let seconds = entered.doomed_ticks(sid) / 10;
        if seconds >= self.config.doomsday.warn_seconds {
            entered.draining(sid, seconds - self.config.doomsday.warn_seconds)
        } else {
            entered
        }
    }

    pub open spec fn dooming_all(self, ids: Seq<u16>) -> GameView
        decreases ids.len(),
    {
        if ids.len() == 0 {
            self
        } else {
            self.dooming_all(ids.drop_last()).dooming(ids.last())
        }
    }

    pub open spec fn clearing_all(self, ids: Seq<u16>) -> GameView
        decreases ids.len(),
    {
        if ids.len() == 0 {
            self
        } else {
            self.clearing_all(ids.drop_last()).clearing_doom(ids.last())
        }
    }

    /// Whether a side falls behind: it does not lead and holds too little.
    pub open spec fn falls_behind(self, sides: Seq<Seq<u16>>, i: int) -> bool {
        let tiles = self.side_tiles(sides);
        i != first_largest(tiles) && tiles[i] < self.required_tiles(sides[i].len() as int)
    }

    /// The game after the first `n` sides were judged by how they stood in `self`.
    pub open spec fn judging_sides(self, sides: Seq<Seq<u16>>, n: nat) -> GameView
        decreases n,
    {
        if n == 0 {
            self
        } else {
            let before = self.judging_sides(sides, (n - 1) as nat);
            if self.falls_behind(sides, n - 1) {
                before.dooming_all(sides[n - 1])
            } else {
                before.clearing_all(sides[n - 1])
            }
        }
    }

    /// The game after a second of the clock. With fewer than two sides it does not run.
    pub open spec fn clock_ticking(self) -> GameView {
        let sides = self.sides(self.contenders());
        if sides.len() < 2 {
            self.clearing_all(self.contenders())
        } else {
            self.judging_sides(sides, sides.len())
        }
    }
}

impl Game {
    /// Whether the clock runs against a player.
    pub fn in_doomsday_clock(&self, sid: u16) -> (doomed: bool)
        ensures
            doomed == self@.is_doomed(sid),
    {
        match self.player_by_small_id(sid) {
            Some(p) => p.alive && p.doomsday_since.is_some(),
            None => false,
        }
    }

    /// The ticks for which the clock has run against a player.
    pub fn doomsday_clock_ticks(&self, sid: u16) -> (ticks: i64)
        ensures
            ticks == self@.doomed_ticks(sid),
    {
        match self.player_by_small_id(sid) {
            Some(p) => if p.alive {
                match p.doomsday_since {
                    Some(t) => self.tick as i64 - t as i64,
                    None => 0,
                }
            } else {
                0
            },
            None => 0,
        }
    }

    pub fn enter_doomsday_clock(&mut self, sid: u16)
        requires
            old(self).wf(),
        ensures
            final(self).wf(),
            final(self)@ == old(self)@.entering_doom(sid),
    {
        let tick: u32 = self.tick;
        if self.is_player_alive(sid) && self.players[sid as usize - 1].doomsday_since.is_none() {
            self.players[sid as usize - 1].doomsday_since = Some(tick);
        }
    }

    pub fn clear_doomsday_clock(&mut self, sid: u16)
        requires
            old(self).wf(),
        ensures
            final(self).wf(),
            final(self)@ == old(self)@.clearing_doom(sid),
    {
        if self.is_player_alive(sid) {
            self.players[sid as usize - 1].doomsday_since = None;
        }
    }

    fn wear_ship(&mut self, sid: u16, id: i32, damage: i64)
        requires
            old(self).wf(),
            damage >= 0,
        ensures
            final(self).wf(),
            final(self)@ == old(self)@.wearing(sid, id, damage as int),
    {
        match self.unit(sid, id) {
            Some(u) => {
                if u.health > damage {
                    let mut worn: Unit = u;
                    worn.health = u.health - damage;
                    self.replace_unit(sid, id, worn);
                } else {
                    self.remove_unit(sid, id);
                }
            },
            None => {},
        }
    }

    fn drain_player(&mut self, sid: u16, seconds: i64)
        requires
            old(self).wf(),
            seconds >= 0,
        ensures
            final(self).wf(),
            final(self)@ == old(self)@.draining(sid, seconds as int),
    {
        let start: i64 = self.wire.doomsday.drain_start_percent;
        let ramp: i64 = self.wire.doomsday.drain_ramp_seconds;
        let whole: i64 = self.max_troops_for(sid);
        let troops: i64 = doomsday_clock_drain(
            whole,
            1000,
            seconds,
            start,
            self.wire.doomsday.drain_max_percent,
            ramp,
        );
        let damage: i64 = doomsday_clock_drain(
            WARSHIP_MAX_HEALTH,
            1,
            seconds,
            start,
            self.wire.doomsday.warship_drain_max_percent,
            ramp,
        );
        self.remove_troops(sid, troops * TROOP_SCALE);
        let ships = self.units_of_type(sid, UnitType::Warship);
        let ghost bled = self@;
        assert(ships@.take(0) =~= Seq::empty());
        for i in 0..ships.len()
            invariant
                self.wf(),
                damage >= 0,
                self@ == bled.wearing_all(sid, ships@.take(i as int), damage as int),
        {
            assert(ships@.take(i + 1).drop_last() =~= ships@.take(i as int));
            self.wear_ship(sid, ships[i].id, damage);
        }
        proof {
            crate::lists::lemma_take_all(ships@);
        }
    }
}

/// Sides as contracts see them.
pub open spec fn side_views(sides: Seq<Vec<u16>>) -> Seq<Seq<u16>> {
    sides.map_values(|s: Vec<u16>| s@)
}

/// Whether every side has members.
pub open spec fn peopled(sides: Seq<Seq<u16>>) -> bool {
    forall|i: int| 0 <= i < sides.len() ==> (#[trigger] sides[i]).len() > 0
}

fn find_side(game: &Game, sides: &Vec<Vec<u16>>, id: u16) -> (at: usize)
    requires
        peopled(side_views(sides@)),
    ensures
        at == game@.side_at(side_views(sides@), id),
        at <= sides@.len(),
{
    let ghost all = side_views(sides@);
    let n: usize = sides.len();
    let mut at: usize = 0;
    proof {
        crate::lists::lemma_take_all(all);
    }
    while at < n
        invariant
            at <= n,
            n == sides@.len(),
            all == side_views(sides@),
            peopled(all),
            game@.side_at(all, id) == at + game@.side_at(all.skip(at as int), id),
        decreases n - at,
    {
        assert(all[at as int] == sides@[at as int]@);
        assert(all.skip(at as int)[0] == all[at as int]);
        assert(all.skip(at as int).skip(1) =~= all.skip(at + 1));
        let first: u16 = sides[at][0];
        let same: bool = match (game.player_by_small_id(first), game.player_by_small_id(id)) {
            (Some(p), Some(q)) => crate::state::is_same_team(&p.team, &q.team),
            _ => false,
        };
        if same {
            return at;
        }
        at = at + 1;
    }
    at
}

impl DoomsdayClockExecution {
    /// The sides of the game.
    pub fn sides(game: &Game, contenders: &Vec<u16>, ffa: bool) -> (sides: Vec<Vec<u16>>)
        requires
            ffa == (game@.config.game_mode == GameMode::FreeForAll),
        ensures
            side_views(sides@) == game@.sides(contenders@),
            peopled(side_views(sides@)),
    {
        let mut sides: Vec<Vec<u16>> = Vec::new();
        assert(side_views(sides@) =~= Seq::empty());
        assert(contenders@.take(0) =~= Seq::empty());
        for i in 0..contenders.len()
            invariant
                peopled(side_views(sides@)),
                ffa ==> side_views(sides@) == contenders@.take(i as int).map_values(
                    |id: u16| seq![id],
                ),
                !ffa ==> side_views(sides@) == game@.teams(contenders@.take(i as int)),
        {
            let id: u16 = contenders[i];
            let ghost before = sides@;
            let ghost views = side_views(before);
            assert(contenders@.take(i + 1).drop_last() =~= contenders@.take(i as int));
            let teamed: bool = match game.player_by_small_id(id) {
                Some(p) => p.team.is_some(),
                None => false,
            };
            let at: usize = if ffa {
                sides.len()
            } else {
                find_side(game, &sides, id)
            };
            if ffa || (teamed && at >= sides.len()) {
                let mut side: Vec<u16> = Vec::new();
                side.push(id);
                assert(side@ =~= seq![id]);
                sides.push(side);
                assert(side_views(sides@) =~= views.push(seq![id]));
                assert(contenders@.take(i + 1).map_values(|id: u16| seq![id])
                    =~= contenders@.take(i as int).map_values(|id: u16| seq![id]).push(seq![id]));
                assert forall|k: int| 0 <= k < side_views(sides@).len() implies (#[trigger]
                side_views(sides@)[k]).len() > 0 by {
                    if k < views.len() {
                        assert(views[k].len() > 0);
                    }
                }
            } else if teamed {
                sides[at].push(id);
                assert(side_views(sides@) =~= views.update(at as int, views[at as int].push(id)));
                assert forall|k: int| 0 <= k < side_views(sides@).len() implies (#[trigger]
                side_views(sides@)[k]).len() > 0 by {
                    assert(views[k].len() > 0);
                }
            }
        }
        proof {
            crate::lists::lemma_take_all(contenders@);
        }
        sides
    }
}

/// The tiles of a side.
fn count_tiles(game: &Game, ids: &Vec<u16>) -> (tiles: i128)
    requires
        game@.wf(),
    ensures
        tiles == game@.tiles_of_side(ids@),
        0 <= tiles <= 0xfffe_0001 * ids@.len(),
{
    let mut tiles: i128 = 0;
    assert(ids.len() <= 0xffff_ffff_ffff_ffff);
    assert(ids@.take(0) =~= Seq::empty());
    for i in 0..ids.len()
        invariant
            game@.wf(),
            ids@.len() <= 0xffff_ffff_ffff_ffff,
            tiles == game@.tiles_of_side(ids@.take(i as int)),
            0 <= tiles <= 0xfffe_0001 * i,
    {
        assert(ids@.take(i + 1).drop_last() =~= ids@.take(i as int));
        tiles = tiles + game.tiles_of(ids[i]) as i128;
    }
    proof {
        crate::lists::lemma_take_all(ids@);
    }
    tiles
}

/// The first of the sides with the most tiles.
fn leading_side(game: &Game, sides: &Vec<Vec<u16>>) -> (at: usize)
    requires
        game@.wf(),
        sides@.len() > 0,
    ensures
        at == first_largest(game@.side_tiles(side_views(sides@))),
        at < sides@.len(),
{
    let ghost tiles = game@.side_tiles(side_views(sides@));
    let mut at: usize = 0;
    let mut most: i128 = count_tiles(game, &sides[0]);
    assert(first_largest(tiles.take(1)) == 0);
    assert(tiles[0] == game@.tiles_of_side(side_views(sides@)[0]));
    for i in 1..sides.len()
        invariant
            game@.wf(),
            tiles == game@.side_tiles(side_views(sides@)),
            at < i <= sides@.len(),
            at == first_largest(tiles.take(i as int)),
            most == tiles[at as int],
    {
        assert(tiles.take(i + 1).drop_last() =~= tiles.take(i as int));
        assert(tiles.take(i as int)[at as int] == tiles[at as int]);
        assert(tiles.take(i + 1)[at as int] == tiles[at as int]);
        assert(tiles[i as int] == game@.tiles_of_side(side_views(sides@)[i as int]));
        let here: i128 = count_tiles(game, &sides[i]);
        if here > most {
            at = i;
            most = here;
        }
    }
    proof {
        crate::lists::lemma_take_all(tiles);
    }
    at
}

/// Which sides fall behind.
fn sides_behind(game: &Game, sides: &Vec<Vec<u16>>) -> (behind: Vec<bool>)
    requires
        game@.wf(),
        sides@.len() > 0,
    ensures
        behind@.len() == sides@.len(),
        forall|i: int|
            0 <= i < behind@.len() ==> #[trigger] behind@[i] == game@.falls_behind(
                side_views(sides@),
                i,
            ),
{
    let leader: usize = leading_side(game, sides);
    let free: i64 = game.num_land_tiles() as i64 - game.num_tiles_with_fallout() as i64;
    let land: i64 = if free > 0 {
        free
    } else {
        0
    };
    let bar: i64 = game.wire.doomsday_bar;
    assert(0 <= land * bar <= 0xffff_ffff * 10_000) by (nonlinear_arith)
        requires
            0 <= land <= 0xffff_ffff,
            0 <= bar <= 10_000,
    ;
    let share: i128 = land as i128 * bar as i128;
    let mut behind: Vec<bool> = Vec::new();
    for i in 0..sides.len()
        invariant
            game@.wf(),
            leader == first_largest(game@.side_tiles(side_views(sides@))),
            share == game@.contested_land() * game@.config.doomsday_bar,
            0 <= share <= 0xffff_ffff * 10_000,
            behind@.len() == i,
            forall|k: int|
                0 <= k < behind@.len() ==> #[trigger] behind@[k] == game@.falls_behind(
                    side_views(sides@),
                    k,
                ),
    {
        assert(side_views(sides@)[i as int] == sides@[i as int]@);
        let members: i128 = sides[i].len() as i128;
        assert(sides@[i as int].len() <= 0xffff_ffff_ffff_ffff);
        assert(0 <= share * members <= 0xffff_ffff * 10_000 * 0xffff_ffff_ffff_ffff) by (
        nonlinear_arith)
            requires
                0 <= share <= 0xffff_ffff * 10_000,
                0 <= members <= 0xffff_ffff_ffff_ffff,
        ;
        let required: i128 = share * members / 10_000;
        let tiles: i128 = count_tiles(game, &sides[i]);
        assert(required == game@.required_tiles(members as int));
        behind.push(i != leader && tiles < required);
    }
    behind
}

/// Runs the clock for a second against a player.
fn doom(game: &mut Game, id: u16)
    requires
        old(game).wf(),
    ensures
        final(game).wf(),
        final(game)@ == old(game)@.dooming(id),
{
    game.enter_doomsday_clock(id);
    let ticks: i64 = game.doomsday_clock_ticks(id);
    let seconds: i64 = if ticks >= 0 {
        ticks / 10
    } else {
        (ticks - 9) / 10
    };
    let warn: i64 = game.wire.doomsday.warn_seconds;
    if seconds >= warn {
        game.drain_player(id, seconds - warn);
    }
}

impl Execution for DoomsdayClockExecution {
    open spec fn ready(&self, game: GameView) -> bool {
        true
    }

    open spec fn begun(&self, game: GameView, tick: u32) -> GameView {
        game
    }

    /// Once a second the clock judges the sides, where the game has one.
    open spec fn ticked(&self, game: GameView, tick: u32) -> GameView {
        if tick % 10 == 0 && game.config.doomsday.enabled {
            game.clock_ticking()
        } else {
            game
        }
    }

    open spec fn begun_as(&self, game: GameView, tick: u32, next: Self) -> bool {
        next == *self
    }

    open spec fn ticked_as(&self, game: GameView, tick: u32, next: Self) -> bool {
        next == *self
    }

    open spec fn going(&self) -> bool {
        self.active
    }

    fn init(&mut self, game: &mut Game, tick: u32) {
    }

    fn tick(&mut self, game: &mut Game, tick: u32) {
        if tick % 10 != 0 || !game.wire.doomsday.enabled {
            return;
        }
        let game_now: &Game = game;
        let alive = game_now.players_alive();
        let accepts = |id: u16| -> (contending: bool)
            ensures
                contending == contends(game_now@)(id),
            { !game_now.is_of_type(id, PlayerType::Bot) };
        let contenders = crate::lists::filter_by(&alive, accepts, Ghost(contends(game_now@)));
        let ffa: bool = match game_now.wire.game_mode {
            GameMode::FreeForAll => true,
            GameMode::Team => false,
        };
        let sides = Self::sides(game_now, &contenders, ffa);
        if sides.len() < 2 {
            clear_all(game, &contenders);
            return;
        }
        let behind = sides_behind(game_now, &sides);
        let ghost before = game@;
        let ghost views = side_views(sides@);
        for i in 0..sides.len()
            invariant
                game.wf(),
                views == side_views(sides@),
                behind@.len() == sides@.len(),
                forall|k: int|
                    0 <= k < behind@.len() ==> #[trigger] behind@[k] == before.falls_behind(
                        views,
                        k,
                    ),
                game@ == before.judging_sides(views, i as nat),
        {
            assert(views[i as int] == sides@[i as int]@);
            if behind[i] {
                doom_all(game, &sides[i]);
            } else {
                clear_all(game, &sides[i]);
            }
        }
    }

    fn is_active(&self) -> (active: bool) {
        self.active
    }
}

fn clear_all(game: &mut Game, ids: &Vec<u16>)
    requires
        old(game).wf(),
    ensures
        final(game).wf(),
        final(game)@ == old(game)@.clearing_all(ids@),
{
    let ghost before = game@;
    assert(ids@.take(0) =~= Seq::empty());
    for i in 0..ids.len()
        invariant
            game.wf(),
            game@ == before.clearing_all(ids@.take(i as int)),
    {
        assert(ids@.take(i + 1).drop_last() =~= ids@.take(i as int));
        game.clear_doomsday_clock(ids[i]);
    }
    proof {
        crate::lists::lemma_take_all(ids@);
    }
}

fn doom_all(game: &mut Game, ids: &Vec<u16>)
    requires
        old(game).wf(),
    ensures
        final(game).wf(),
        final(game)@ == old(game)@.dooming_all(ids@),
{
    let ghost before = game@;
    assert(ids@.take(0) =~= Seq::empty());
    for i in 0..ids.len()
        invariant
            game.wf(),
            game@ == before.dooming_all(ids@.take(i as int)),
    {
        assert(ids@.take(i + 1).drop_last() =~= ids@.take(i as int));
        doom(game, ids[i]);
    }
    proof {
        crate::lists::lemma_take_all(ids@);
    }
}

proof fn lemma_wearing(game: GameView, sid: u16, ships: Seq<Unit>, damage: int)
    ensures
        game.wearing_all(sid, ships, damage).players == game.players,
    decreases ships.len(),
{
    if ships.len() > 0 {
        lemma_wearing(game, sid, ships.drop_last(), damage);
    }
}

/// The clock leaves alone whom it does not run against.
proof fn lemma_dooming(game: GameView, ids: Seq<u16>, id: u16)
    requires
        !ids.contains(id),
        game.has(id),
    ensures
        game.dooming_all(ids).players.len() == game.players.len(),
        game.dooming_all(ids).player(id) == game.player(id),
    decreases ids.len(),
{
    if ids.len() > 0 {
        let last = ids.last();
        assert(ids.contains(last));
        assert forall|x: u16| ids.drop_last().contains(x) implies ids.contains(x) by {
            let i = choose|i: int| 0 <= i < ids.drop_last().len() && ids.drop_last()[i] == x;
            assert(ids[i] == x);
        }
        lemma_dooming(game, ids.drop_last(), id);
        let before = game.dooming_all(ids.drop_last());
        let entered = before.entering_doom(last);
        let seconds = entered.doomed_ticks(last) / 10 - before.config.doomsday.warn_seconds;
        let bled = entered.losing(last, entered.troop_drain(last, seconds) * TROOP_SCALE);
        lemma_wearing(
            bled,
            last,
            bled.units_of(last, UnitType::Warship),
            entered.warship_drain(seconds),
        );
    }
}

proof fn lemma_clearing(game: GameView, ids: Seq<u16>, id: u16)
    requires
        game.has(id),
    ensures
        game.clearing_all(ids).players.len() == game.players.len(),
        game.clearing_all(ids).player(id) == game.player(id) || game.clearing_all(ids).player(id)
            == (Player { doomsday_since: None, ..game.player(id) }),
        ids.contains(id) || game.player(id).doomsday_since is None ==> !game.clearing_all(
            ids,
        ).is_doomed(id),
    decreases ids.len(),
{
    if ids.len() > 0 {
        lemma_clearing(game, ids.drop_last(), id);
        if ids.contains(id) && ids.last() != id {
            let i = choose|i: int| 0 <= i < ids.len() && ids[i] == id;
            assert(ids.drop_last()[i] == id);
        }
    }
}

proof fn lemma_judging(game: GameView, sides: Seq<Seq<u16>>, n: nat, id: u16)
    requires
        game.has(id),
        n <= sides.len(),
        forall|i: int|
            0 <= i < sides.len() && (#[trigger] sides[i]).contains(id) ==> !game.falls_behind(
                sides,
                i,
            ),
    ensures
        game.judging_sides(sides, n).players.len() == game.players.len(),
        game.judging_sides(sides, n).player(id) == game.player(id) || game.judging_sides(
            sides,
            n,
        ).player(id) == (Player { doomsday_since: None, ..game.player(id) }),
        (exists|i: int| 0 <= i < n && (#[trigger] sides[i]).contains(id)) ==> !game.judging_sides(
            sides,
            n,
        ).is_doomed(id),
    decreases n,
{
    if n > 0 {
        lemma_judging(game, sides, (n - 1) as nat, id);
        let before = game.judging_sides(sides, (n - 1) as nat);
        let side = sides[n - 1];
        if game.falls_behind(sides, n - 1) {
            assert(!side.contains(id));
            lemma_dooming(before, side, id);
        } else {
            lemma_clearing(before, side, id);
        }
        if exists|i: int| 0 <= i < n && (#[trigger] sides[i]).contains(id) {
            let i = choose|i: int| 0 <= i < n && (#[trigger] sides[i]).contains(id);
            if i < n - 1 {
                assert(sides[i].contains(id));
            }
        }
    }
}

/// The clock never runs against a player whose side leads, however little it holds: the
/// player keeps its troops and is not marked.
pub proof fn law_leader_is_spared(game: GameView, id: u16)
    requires
        game.has(id),
        game.sides(game.contenders()).len() >= 2,
        exists|i: int|
            0 <= i < game.sides(game.contenders()).len() && (#[trigger] game.sides(
                game.contenders(),
            )[i]).contains(id),
        forall|i: int|
            0 <= i < game.sides(game.contenders()).len() && (#[trigger] game.sides(
                game.contenders(),
            )[i]).contains(id) ==> i == first_largest(
                game.side_tiles(game.sides(game.contenders())),
            ),
    ensures
        game.clock_ticking().troops(id) == game.troops(id),
        !game.clock_ticking().is_doomed(id),
{
    let sides = game.sides(game.contenders());
    lemma_judging(game, sides, sides.len(), id);
}

/// A player whose sides hold enough keeps its troops and is not marked.
pub proof fn law_sides_with_enough_are_spared(game: GameView, id: u16)
    requires
        game.has(id),
        game.sides(game.contenders()).len() >= 2,
        exists|i: int|
            0 <= i < game.sides(game.contenders()).len() && (#[trigger] game.sides(
                game.contenders(),
            )[i]).contains(id),
        forall|i: int|
            0 <= i < game.sides(game.contenders()).len() && (#[trigger] game.sides(
                game.contenders(),
            )[i]).contains(id) ==> game.side_tiles(game.sides(game.contenders()))[i]
                >= game.required_tiles(game.sides(game.contenders())[i].len() as int),
    ensures
        game.clock_ticking().troops(id) == game.troops(id),
        !game.clock_ticking().is_doomed(id),
{
    let sides = game.sides(game.contenders());
    lemma_judging(game, sides, sides.len(), id);
}

/// With fewer than two sides the clock takes nothing from anybody, and nobody who contends
/// stays marked.
pub proof fn law_clock_idles_with_one_side(game: GameView, id: u16)
    requires
        game.has(id),
        game.sides(game.contenders()).len() < 2,
    ensures
        game.clock_ticking().troops(id) == game.troops(id),
        game.contenders().contains(id) ==> !game.clock_ticking().is_doomed(id),
        game.clock_ticking().units == game.units,
{
    lemma_clearing(game, game.contenders(), id);
    lemma_clearing_units(game, game.contenders());
}

proof fn lemma_clearing_units(game: GameView, ids: Seq<u16>)
    ensures
        game.clearing_all(ids).units == game.units,
    decreases ids.len(),
{
    if ids.len() > 0 {
        lemma_clearing_units(game, ids.drop_last());
    }
}

} // verus!
