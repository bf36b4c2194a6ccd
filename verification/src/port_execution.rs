//! Ports.

use vstd::prelude::*;

use crate::exec_enum::ExecEnum;
use crate::execution::Execution;
use crate::game::{Game, GameView};
use crate::map::MapView;
use crate::ordered_tiles::TileRef;
use crate::orders::Order;
use crate::orders::TradeShipExecution;
use crate::prng::PseudoRandom;
use crate::state::Unit;
use crate::unit_type::UnitType;

verus! {

/// A port at work.
pub struct PortExecution {
    pub small_id: u16,
    pub unit_id: i32,
    pub active: bool,
    pub random: Option<PseudoRandom>,
    pub check_offset: u32,
    pub trade_ship_spawn_rejections: i64,
    /// One in how many chances a trade ship sets out. The engine works it out from the ships
    /// at sea and the rejections before a tick.
    pub trade_ship_spawn_rate: i64,
}

impl PortExecution {
    /// What the execution was created with.
    pub open spec fn order(&self) -> Order {
        Order::Port { small_id: self.small_id, unit_id: self.unit_id }
    }

    pub fn new(small_id: u16, unit_id: i32) -> (execution: Self)
        ensures
            execution.small_id == small_id,
            execution.unit_id == unit_id,
            execution.active,
            execution.random is None,
            execution.check_offset == 0,
            execution.trade_ship_spawn_rejections == 0,
            execution.trade_ship_spawn_rate == 1,
    {
        PortExecution {
            small_id,
            unit_id,
            active: true,
            random: None,
            check_offset: 0,
            trade_ship_spawn_rejections: 0,
            trade_ship_spawn_rate: 1,
        }
    }
}

/// A port that a port could trade with.
#[derive(Clone, Copy, Debug, PartialEq, Eq, Structural)]
pub struct TradePort {
    pub owner: u16,
    pub unit_id: i32,
    pub tile: TileRef,
    pub level: i32,
}

/// How often a port of a level counts.
pub open spec fn port_level(level: i32) -> i32 {
    if level < 1 {
        1
    } else {
        level
    }
}

/// Makes a trading port out of a unit.
pub open spec fn as_trade_port() -> spec_fn(Unit) -> TradePort {
    |u: Unit|
        TradePort { owner: u.owner, unit_id: u.id, tile: u.tile, level: port_level(u.level) }
}

/// A port many times over.
pub open spec fn copies(port: (u16, i32), n: int) -> Seq<(u16, i32)> {
    Seq::new(
        if n < 0 {
            0
        } else {
            n as nat
        },
        |i: int| port,
    )
}

/// How many of the nearest of `n` ports trade more than others: a third, four at least.
pub open spec fn is_close_port(i: int, n: int) -> bool {
    3 * i < (if n < 12 {
        12
    } else {
        n
    })
}

/// Whether a draw succeeds within `n` draws, how many fail before, and the random state
/// after that.
pub open spec fn luck(rng: u64, rate: int, n: nat) -> (bool, nat, u64)
    decreases n,
{
    if n == 0 {
        (false, 0, rng)
    } else if crate::prng::chance_drawn(rng, rate) {
        (true, 0, crate::prng::next_state(rng))
    } else {
        let (hit, missed, after) = luck(crate::prng::next_state(rng), rate, (n - 1) as nat);
        (hit, missed + 1, after)
    }
}

impl MapView {
    /// Water that belongs to a body.
    pub open spec fn charted_water(self) -> spec_fn(TileRef) -> bool {
        |t: TileRef| self.is_water(t) && self.tiles[t as int].component is Some
    }

    /// The bodies of water next to a tile.
    pub open spec fn bodies_at(self, t: TileRef) -> Seq<u32> {
        crate::lists::distinct(
            self.neighbors4(t).filter(self.charted_water()).map_values(self.body()),
        )
    }

    /// Bodies of water that touch a tile.
    pub open spec fn touching(self, t: TileRef) -> spec_fn(u32) -> bool {
        |body: u32| self.touches_component(t, body)
    }

    /// Orders ports by their distance.
    pub open spec fn by_port_distance(self, t: TileRef) -> spec_fn(TradePort) -> (i64, TradePort) {
        |p: TradePort| (self.manhattan(t, p.tile) as i64, p)
    }
}

impl GameView {
    /// Ports of others that ships from `tile` can reach and may trade with.
    pub open spec fn trades_with(self, sid: u16, other: u16, tile: TileRef) -> spec_fn(
        Unit,
    ) -> bool {
        |u: Unit|
            u.owner == other && u.unit_type == UnitType::Port && other != sid && self.can_trade(
                other,
                sid,
            ) && crate::lists::some_where(self.map.bodies_at(tile), self.map.touching(u.tile))
    }

    /// The ports of `others` that a port can trade with.
    pub open spec fn ports_among(self, sid: u16, tile: TileRef, others: Seq<u16>) -> Seq<TradePort>
        decreases others.len(),
    {
        if others.len() == 0 {
            Seq::empty()
        } else {
            self.ports_among(sid, tile, others.drop_last()) + self.units.filter(
                self.trades_with(sid, others.last(), tile),
            ).map_values(as_trade_port())
        }
    }

    /// All ports that a port can trade with, nearest first.
    pub open spec fn trade_partners(self, sid: u16, tile: TileRef) -> Seq<TradePort> {
        crate::lists::payloads(
            crate::lists::sort_by_key(
                self.ports_among(sid, tile, self.alive_ids()).map_values(
                    self.map.by_port_distance(tile),
                ),
            ),
        )
    }

    /// How often the `i`-th of `n` ports counts for each of its levels: once, once more
    /// where it is among the nearest and once more where it is a friend's, both only
    /// outside the short range.
    pub open spec fn port_share(self, sid: u16, tile: TileRef, p: TradePort, i: int, n: int) -> int {
        let far = self.map.manhattan(tile, p.tile) >= self.config.trade_ship_short_range_debuff;
        1 + (if far && is_close_port(i, n) {
            1int
        } else {
            0
        }) + (if far && self.is_friendly(sid, p.owner) {
            1int
        } else {
            0
        })
    }

    /// The first `k` of `ports`, each as often as it counts.
    pub open spec fn weighted(self, sid: u16, tile: TileRef, ports: Seq<TradePort>, k: int) -> Seq<
        (u16, i32),
    >
        decreases k,
    {
        if k <= 0 {
            Seq::empty()
        } else {
            let p = ports[k - 1];
            self.weighted(sid, tile, ports, k - 1) + copies(
                (p.owner, p.unit_id),
                p.level * self.port_share(sid, tile, p, k - 1, ports.len() as int),
            )
        }
    }

    /// The ports that a port trades with, each as often as it counts.
    pub open spec fn trading_ports(self, sid: u16, tile: TileRef) -> Seq<(u16, i32)> {
        let ports = self.trade_partners(sid, tile);
        self.weighted(sid, tile, ports, ports.len() as int)
    }
}

/// The bodies of water next to a tile.
fn water_at(game: &Game, tile: TileRef) -> (bodies: Vec<u32>)
    requires
        game@.wf(),
        game@.map.valid(tile),
    ensures
        bodies@ == game@.map.bodies_at(tile),
{
    let next = game.map.neighbors4(tile);
    let ghost p = game@.map.charted_water();
    let ghost f = game@.map.body();
    let mut bodies: Vec<u32> = Vec::new();
    assert(next@.take(0).filter(p).map_values(f) =~= Seq::empty()) by {
        reveal(Seq::filter);
    }
    for i in 0..next.len()
        invariant
            p == game@.map.charted_water(),
            f == game@.map.body(),
            forall|k: int| 0 <= k < next@.len() ==> game@.map.valid(#[trigger] next@[k]),
            bodies@ == crate::lists::distinct(next@.take(i as int).filter(p).map_values(f)),
    {
        let t: TileRef = next[i];
        assert(game@.map.valid(next@[i as int]));
        let ghost held = next@.take(i as int).filter(p);
        proof {
            crate::lists::lemma_filter_step(next@, p, i as int);
        }
        if game.map.is_water(t) {
            match game.map.tiles[t as usize].component {
                Some(c) => {
                    assert(held.push(t).map_values(f) =~= held.map_values(f).push(c));
                    assert(held.map_values(f).push(c).drop_last() =~= held.map_values(f));
                    if !crate::spawn_tiles::has_tile(&bodies, c) {
                        bodies.push(c);
                    }
                },
                None => {},
            }
        }
    }
    proof {
        crate::lists::lemma_take_all(next@);
    }
    bodies
}

/// Adds the ports of a player that a port can trade with to a list.
fn push_ports(game: &Game, sid: u16, other: u16, tile: TileRef, bodies: &Vec<u32>, ports: &mut Vec<
    TradePort,
>)
    requires
        game@.wf(),
        game@.map.valid(tile),
        bodies@ == game@.map.bodies_at(tile),
        forall|i: int|
            0 <= i < old(ports)@.len() ==> game@.map.valid((#[trigger] old(ports)@[i]).tile) && 1
                <= old(ports)@[i].level <= 10_000,
    ensures
        final(ports)@ == old(ports)@ + game@.units.filter(
            game@.trades_with(sid, other, tile),
        ).map_values(as_trade_port()),
        forall|i: int|
            0 <= i < final(ports)@.len() ==> game@.map.valid((#[trigger] final(ports)@[i]).tile)
                && 1 <= final(ports)@[i].level <= 10_000,
{
    let ghost p = game@.trades_with(sid, other, tile);
    let ghost f = as_trade_port();
    let ghost before = ports@;
    let may: bool = other != sid && game.can_trade(other, sid);
    assert(before + game@.units.take(0).filter(p).map_values(f) =~= before) by {
        reveal(Seq::filter);
    }
    for i in 0..game.units.len()
        invariant
            game@.wf(),
            game@.map.valid(tile),
            bodies@ == game@.map.bodies_at(tile),
            may == (other != sid && game@.can_trade(other, sid)),
            p == game@.trades_with(sid, other, tile),
            f == as_trade_port(),
            ports@ == before + game@.units.take(i as int).filter(p).map_values(f),
            forall|k: int|
                0 <= k < ports@.len() ==> game@.map.valid((#[trigger] ports@[k]).tile) && 1
                    <= ports@[k].level <= 10_000,
    {
        let u: Unit = game.units[i];
        assert(game@.units[i as int] == u);
        let ghost held = game@.units.take(i as int).filter(p);
        proof {
            crate::lists::lemma_filter_step(game@.units, p, i as int);
        }
        if may && u.owner == other && u.unit_type == UnitType::Port {
            let touches = |c: u32| -> (touching: bool)
                ensures
                    touching == game@.map.touching(u.tile)(c),
                { game.map.has_water_component(u.tile, c) };
            if crate::lists::any_by(bodies, touches, Ghost(game@.map.touching(u.tile))) {
                assert(held.push(u).map_values(f) =~= held.map_values(f).push(f(u)));
                assert(before + held.map_values(f).push(f(u)) =~= (before + held.map_values(
                    f,
                )).push(f(u)));
                let level: i32 = if u.level < 1 {
                    1
                } else {
                    u.level
                };
                ports.push(TradePort { owner: u.owner, unit_id: u.id, tile: u.tile, level });
            }
        }
    }
    proof {
        crate::lists::lemma_take_all(game@.units);
    }
}

/// All ports that a port can trade with, nearest first.
fn partners_of(game: &Game, sid: u16, tile: TileRef) -> (ports: Vec<TradePort>)
    requires
        game@.wf(),
        game@.map.valid(tile),
    ensures
        ports@ == game@.trade_partners(sid, tile),
        forall|i: int|
            0 <= i < ports@.len() ==> game@.map.valid((#[trigger] ports@[i]).tile) && 1
                <= ports@[i].level <= 10_000,
{
    let bodies = water_at(game, tile);
    let alive = game.players_alive();
    let mut ports: Vec<TradePort> = Vec::new();
    assert(ports@ =~= game@.ports_among(sid, tile, alive@.take(0)));
    for i in 0..alive.len()
        invariant
            game@.wf(),
            game@.map.valid(tile),
            bodies@ == game@.map.bodies_at(tile),
            ports@ == game@.ports_among(sid, tile, alive@.take(i as int)),
            forall|k: int|
                0 <= k < ports@.len() ==> game@.map.valid((#[trigger] ports@[k]).tile) && 1
                    <= ports@[k].level <= 10_000,
    {
        assert(alive@.take(i + 1).drop_last() =~= alive@.take(i as int));
        push_ports(game, sid, alive[i], tile, &bodies, &mut ports);
    }
    proof {
        crate::lists::lemma_take_all(alive@);
    }
    let ghost f = game@.map.by_port_distance(tile);
    let mut keyed: Vec<(i64, TradePort)> = Vec::new();
    for i in 0..ports.len()
        invariant
            game@.wf(),
            game@.map.valid(tile),
            f == game@.map.by_port_distance(tile),
            forall|k: int|
                0 <= k < ports@.len() ==> game@.map.valid((#[trigger] ports@[k]).tile) && 1
                    <= ports@[k].level <= 10_000,
            keyed@ == ports@.take(i as int).map_values(f),
    {
        let p: TradePort = ports[i];
        assert(game@.map.valid(ports@[i as int].tile));
        keyed.push((game.map.manhattan_dist(tile, p.tile) as i64, p));
        assert(ports@.take(i + 1).map_values(f) =~= ports@.take(i as int).map_values(f).push(f(p)));
    }
    proof {
        crate::lists::lemma_take_all(ports@);
        crate::lists::lemma_sorted_members(ports@, f);
    }
    let sorted = crate::lists::sorted_payloads(&keyed);
    assert forall|i: int| 0 <= i < sorted@.len() implies game@.map.valid((#[trigger] sorted@[i]).tile)
        && 1 <= sorted@[i].level <= 10_000 by {
        assert(sorted@.contains(sorted@[i]));
        assert(ports@.contains(sorted@[i]));
    }
    sorted
}

fn push_copies(list: &mut Vec<(u16, i32)>, port: (u16, i32), n: i32)
    requires
        n >= 0,
    ensures
        final(list)@ == old(list)@ + copies(port, n as int),
{
    let ghost before = list@;
    assert(before + copies(port, 0) =~= before);
    for i in 0..n
        invariant
            n >= 0,
            list@ == before + copies(port, i as int),
    {
        list.push(port);
        assert((before + copies(port, i as int)).push(port) =~= before + copies(port, i + 1));
    }
}

impl PortExecution {
    /// The ports that the port at `port_tile` trades with, each as often as it counts.
    pub fn trading_ports(&self, game: &Game, port_tile: TileRef) -> (ports: Vec<(u16, i32)>)
        requires
            game@.wf(),
            game@.map.valid(port_tile),
        ensures
            ports@ == game@.trading_ports(self.small_id, port_tile),
    {
        let candidates = partners_of(game, self.small_id, port_tile);
        let n: usize = candidates.len();
        let mut weighted: Vec<(u16, i32)> = Vec::new();
        assert(weighted@ =~= game@.weighted(self.small_id, port_tile, candidates@, 0));
        for i in 0..n
            invariant
                game@.wf(),
                game@.map.valid(port_tile),
                n == candidates@.len(),
                forall|k: int|
                    0 <= k < candidates@.len() ==> game@.map.valid(
                        (#[trigger] candidates@[k]).tile,
                    ) && 1 <= candidates@[k].level <= 10_000,
                weighted@ == game@.weighted(self.small_id, port_tile, candidates@, i as int),
        {
            let p: TradePort = candidates[i];
            assert(game@.map.valid(candidates@[i as int].tile));
            let far: bool = game.map.manhattan_dist(port_tile, p.tile)
                >= game.wire.trade_ship_short_range_debuff;
            let bound: usize = if n < 12 {
                12
            } else {
                n
            };
            let close: bool = i < bound / 3 || (i == bound / 3 && bound % 3 != 0);
            let mut share: i32 = 1;
            if far && close {
                share = share + 1;
            }
            if far && game.is_friendly(self.small_id, p.owner) {
                share = share + 1;
            }
            assert(share == game@.port_share(self.small_id, port_tile, p, i as int, n as int));
            assert(0 <= p.level * share <= 30_000) by (nonlinear_arith)
                requires
                    1 <= p.level <= 10_000,
                    1 <= share <= 3,
            ;
            push_copies(&mut weighted, (p.owner, p.unit_id), p.level * share);
        }
        weighted
    }
}

impl PortExecution {
    /// The rate as it is drawn.
    pub open spec fn rate(&self) -> int {
        if self.trade_ship_spawn_rate < 1 {
            1
        } else if self.trade_ship_spawn_rate > i32::MAX {
            i32::MAX as int
        } else {
            self.trade_ship_spawn_rate as int
        }
    }

    /// Whether the port still stands.
    pub open spec fn stands(&self, game: GameView) -> bool {
        match game.unit(self.small_id, self.unit_id) {
            Some(u) => !u.under_construction,
            None => false,
        }
    }

    /// The game after the port looked for a factory to be connected with.
    pub open spec fn connected(&self, game: GameView) -> GameView {
        match game.unit(self.small_id, self.unit_id) {
            Some(u) => if u.has_train_station {
                game
            } else {
                game.connecting(self.small_id, self.unit_id)
            },
            None => game,
        }
    }

    /// Whether the port thinks of trade on a tick.
    pub open spec fn is_due(&self, tick: u32) -> bool {
        (tick + self.check_offset) % 10 == 0
    }

    /// The draws for a trade ship: one for each level until one succeeds.
    pub open spec fn draws(&self, game: GameView) -> (bool, nat, u64) {
        luck(
            self.random->0.state,
            self.rate(),
            port_level(game.unit(self.small_id, self.unit_id)->0.level) as nat,
        )
    }

    /// The port's random state after a tick.
    pub open spec fn random_after(&self, game: GameView, tick: u32) -> Option<PseudoRandom> {
        if self.active && self.stands(game) && self.is_due(tick) && self.random is Some {
            let (hit, _, after) = self.draws(game);
            let ports = self.connected(game).trading_ports(
                self.small_id,
                game.unit(self.small_id, self.unit_id)->0.tile,
            );
            Some(
                PseudoRandom {
                    state: if hit && ports.len() > 0 {
                        crate::prng::element_drawn(after, ports).1
                    } else {
                        after
                    },
                },
            )
        } else {
            self.random
        }
    }

    /// Rejections after `n` more.
    pub open spec fn rejected(&self, n: nat) -> i64 {
        if self.trade_ship_spawn_rejections + n > i64::MAX {
            i64::MAX
        } else {
            (self.trade_ship_spawn_rejections + n) as i64
        }
    }

    /// The port's rejections after a tick: a ship that sets out ends their count.
    pub open spec fn rejections_after(&self, game: GameView, tick: u32) -> i64 {
        if self.active && self.stands(game) && self.is_due(tick) && self.random is Some {
            if self.draws(game).0 {
                0
            } else {
                self.rejected(self.draws(game).1)
            }
        } else {
            self.trade_ship_spawn_rejections
        }
    }

    /// Draws for a trade ship.
    pub fn should_spawn_trade_ship(&mut self, level: i32) -> (spawn: bool)
        requires
            old(self).random is Some,
            1 <= level <= 10_000,
        ensures
            final(self).random is Some,
            final(self).small_id == old(self).small_id,
            final(self).unit_id == old(self).unit_id,
            final(self).active == old(self).active,
            final(self).check_offset == old(self).check_offset,
            final(self).trade_ship_spawn_rate == old(self).trade_ship_spawn_rate,
            ({
                let (hit, missed, after) = luck(
                    old(self).random->0.state,
                    old(self).rate(),
                    level as nat,
                );
                spawn == hit && final(self).random->0.state == after
                    && final(self).trade_ship_spawn_rejections == (if hit {
                    0
                } else {
                    old(self).rejected(missed)
                })
            }),
    {
        let mut random: PseudoRandom = match &self.random {
            Some(r) => PseudoRandom { state: r.state },
            None => PseudoRandom { state: 0 },
        };
        let rate: i32 = if self.trade_ship_spawn_rate < 1 {
            1
        } else if self.trade_ship_spawn_rate > i32::MAX as i64 {
            i32::MAX
        } else {
            self.trade_ship_spawn_rate as i32
        };
        let ghost goal = luck(random.state, rate as int, level as nat);
        for i in 0..level
            invariant
                1 <= level <= 10_000,
                old(self).random is Some,
                *self == *old(self),
                rate == old(self).rate(),
                goal == luck(old(self).random->0.state, rate as int, level as nat),
                ({
                    let (hit, missed, after) = luck(random.state, rate as int, (level - i) as nat);
                    goal.0 == hit && goal.1 == missed + i && goal.2 == after
                }),
        {
            if random.chance(rate) {
                self.trade_ship_spawn_rejections = 0;
                self.random = Some(random);
                return true;
            }
        }
        let missed: i64 = level as i64;
        self.trade_ship_spawn_rejections = if self.trade_ship_spawn_rejections > i64::MAX - missed {
            i64::MAX
        } else {
            self.trade_ship_spawn_rejections + missed
        };
        self.random = Some(random);
        false
    }
}

impl Execution for PortExecution {
    open spec fn ready(&self, game: GameView) -> bool {
        true
    }

    open spec fn begun(&self, game: GameView, tick: u32) -> GameView {
        game
    }

    /// A port looks for a factory to be connected with and, every tenth tick, may send a
    /// ship to one of the ports that it trades with.
    open spec fn ticked(&self, game: GameView, tick: u32) -> GameView {
        if !self.active || !self.stands(game) {
            game
        } else {
            let opened = self.connected(game);
            let tile = game.unit(self.small_id, self.unit_id)->0.tile;
            let ports = opened.trading_ports(self.small_id, tile);
            if self.is_due(tick) && self.random is Some && self.draws(game).0 && ports.len() > 0 {
                let (port, _) = crate::prng::element_drawn(self.draws(game).2, ports);
                opened.ordering(
                    Order::TradeShip {
                        small_id: self.small_id,
                        src_unit_id: self.unit_id,
                        dst_unit_id: (port->0).1,
                    },
                )
            } else {
                opened
            }
        }
    }

    open spec fn begun_as(&self, game: GameView, tick: u32, next: Self) -> bool {
        next == (PortExecution {
            random: Some(PseudoRandom { state: crate::prng::seed_state(tick as i32) }),
            check_offset: tick % 10,
            ..*self
        })
    }

    open spec fn ticked_as(&self, game: GameView, tick: u32, next: Self) -> bool {
        next == (PortExecution {
            active: self.active && self.stands(game),
            random: self.random_after(game, tick),
            trade_ship_spawn_rejections: self.rejections_after(game, tick),
            ..*self
        })
    }

    open spec fn going(&self) -> bool {
        self.active
    }

    fn init(&mut self, game: &mut Game, tick: u32) {
        self.random = Some(PseudoRandom::new(tick as i32));
        self.check_offset = tick % 10;
    }

    fn tick(&mut self, game: &mut Game, tick: u32) {
        if !self.active {
            return;
        }
        let u: Unit = match game.unit(self.small_id, self.unit_id) {
            Some(u) => u,
            None => {
                self.active = false;
                return;
            },
        };
        if u.under_construction {
            self.active = false;
            return;
        }
        if !u.has_train_station {
            game.connect_to_rails(self.small_id, self.unit_id);
        }
        if (tick as u64 + self.check_offset as u64) % 10 != 0 || self.random.is_none() {
            return;
        }
        let level: i32 = if u.level < 1 {
            1
        } else {
            u.level
        };
        if !self.should_spawn_trade_ship(level) {
            return;
        }
        let ports = self.trading_ports(game, u.tile);
        if ports.len() == 0 {
            return;
        }
        let mut random: PseudoRandom = match &self.random {
            Some(r) => PseudoRandom { state: r.state },
            None => return,
        };
        match random.rand_element(ports.as_slice()) {
            Some(port) => game.add_execution(
                ExecEnum::TradeShip(TradeShipExecution::new(self.small_id, self.unit_id, port.1)),
            ),
            None => {},
        }
        self.random = Some(random);
    }

    fn is_active(&self) -> (active: bool) {
        self.active
    }
}

} // verus!
