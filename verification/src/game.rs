//! The state of a game and what can be asked of it and done to it.

use vstd::prelude::*;

use crate::config::{Config, MAX_GOLD, MAX_PRICE};
use crate::exec_enum::ExecEnum;
use crate::map::{GameMap, MapView};
use crate::ordered_tiles::{OrderedTiles, TileRef};
use crate::orders::Order;
use crate::state::{
    Alliance, AllianceRequest, AllianceRequestStatus, Embargo, EmojiSend, Flight, FlightView,
    LandAttack, LandAttackView, Launch, MirvHit, Player, PlayerType, Relation, RelationEntry,
    SharedWater, SharedWaterView, TargetMark, TransportKill, Unit, MAX_TROOPS, RELATION_LIMIT, RELATION_SCALE,
};
use crate::unit_type::UnitType;

verus! {

/// The most players that a game can have: as many as there are small ids.
pub const MAX_PLAYERS: usize = 65_535;

/// The ticks between two emojis to one recipient.
pub const EMOJI_COOLDOWN: u32 = 50;

/// A game as its contracts see it.
#[verifier::ext_equal]
pub struct GameView {
    pub tick: u32,
    pub spawn_phase: bool,
    pub spawn_immunity: bool,
    pub winner: Option<Seq<char>>,
    pub config: Config,
    pub map: MapView,
    pub players: Seq<Player>,
    pub borders: Seq<Seq<TileRef>>,
    pub units: Seq<Unit>,
    pub next_unit_id: i32,
    pub launches: Seq<Launch>,
    pub relations: Seq<RelationEntry>,
    pub alliances: Seq<Alliance>,
    pub requests: Seq<AllianceRequest>,
    pub embargoes: Seq<Embargo>,
    pub attacks: Seq<LandAttackView>,
    pub emojis: Seq<EmojiSend>,
    pub targets: Seq<TargetMark>,
    pub mirv_hits: Seq<MirvHit>,
    pub flights: Seq<FlightView>,
    /// Land that is about to become water.
    pub drowning: Seq<TileRef>,
    /// When the bodies of water that players share were last worked out.
    pub water_tick: Option<u32>,
    pub water: Seq<SharedWaterView>,
    /// The transport ships that nukes destroyed.
    pub kills: Seq<TransportKill>,
    /// Whether the rail network is to work out its clusters anew.
    pub rails_due: bool,
    pub pending: Seq<Order>,
}

impl GameView {
    /// A game on `map`, without players, in its spawn phase.
    pub open spec fn empty(config: Config, map: MapView) -> GameView {
        GameView {
            tick: 0,
            spawn_phase: true,
            spawn_immunity: false,
            winner: None,
            config,
            map,
            players: Seq::empty(),
            borders: Seq::empty(),
            units: Seq::empty(),
            next_unit_id: 1,
            launches: Seq::empty(),
            relations: Seq::empty(),
            alliances: Seq::empty(),
            requests: Seq::empty(),
            embargoes: Seq::empty(),
            attacks: Seq::empty(),
            emojis: Seq::empty(),
            targets: Seq::empty(),
            mirv_hits: Seq::empty(),
            flights: Seq::empty(),
            drowning: Seq::empty(),
            water_tick: None,
            water: Seq::empty(),
            kills: Seq::empty(),
            rails_due: false,
            pending: Seq::empty(),
        }
    }

    /// Every reference in the game leads somewhere, and every number is in range.
    pub open spec fn wf(self) -> bool {
        &&& self.map.wf()
        &&& self.config.wf()
        &&& self.players.len() <= MAX_PLAYERS
        &&& self.borders.len() == self.players.len()
        &&& forall|i: int|
            0 <= i < self.players.len() ==> (#[trigger] self.players[i]).small_id == i + 1
                && self.players[i].wf()
        &&& forall|i: int, j: int|
            0 <= i < self.borders.len() && 0 <= j < self.borders[i].len() ==> self.map.valid(
                #[trigger] self.borders[i][j],
            )
        &&& forall|i: int|
            0 <= i < self.units.len() ==> (#[trigger] self.units[i]).wf() && self.map.valid(
                self.units[i].tile,
            ) && (self.units[i].target_tile is Some ==> self.map.valid(self.units[i].target_tile->0))
        &&& forall|i: int| 0 <= i < self.attacks.len() ==> (#[trigger] self.attacks[i]).wf()
    }

    /// Whether a player has this small id.
    pub open spec fn has(self, sid: u16) -> bool {
        1 <= sid <= self.players.len()
    }

    /// The player with this small id.
    pub open spec fn player(self, sid: u16) -> Player {
        self.players[sid - 1]
    }

    /// The border tiles of a player, in the order in which they became such.
    pub open spec fn border(self, sid: u16) -> Seq<TileRef> {
        if self.has(sid) {
            self.borders[sid - 1]
        } else {
            Seq::empty()
        }
    }

    /// The troops of a player, or none where nobody has this id.
    pub open spec fn troops(self, sid: u16) -> int {
        if self.has(sid) {
            self.player(sid).troops as int
        } else {
            0
        }
    }

    pub open spec fn gold(self, sid: u16) -> int {
        if self.has(sid) {
            self.player(sid).gold as int
        } else {
            0
        }
    }

    pub open spec fn tiles_owned(self, sid: u16) -> int {
        if self.has(sid) {
            self.player(sid).tiles_owned as int
        } else {
            0
        }
    }

    pub open spec fn max_troops_milli(self, sid: u16) -> int {
        if self.has(sid) {
            self.player(sid).max_troops_milli as int
        } else {
            0
        }
    }

    pub open spec fn of_type(self, sid: u16, player_type: PlayerType) -> bool {
        self.has(sid) && self.player(sid).player_type == player_type
    }

    pub open spec fn is_alive(self, sid: u16) -> bool {
        self.has(sid) && self.player(sid).alive
    }

    pub open spec fn is_traitor(self, sid: u16) -> bool {
        self.has(sid) && self.player(sid).traitor
    }

    pub open spec fn on_same_team(self, a: u16, b: u16) -> bool {
        a != b && self.has(a) && self.has(b) && crate::state::same_team(
            self.player(a).team,
            self.player(b).team,
        )
    }

    pub open spec fn allied(self, a: u16, b: u16) -> bool {
        exists|i: int| 0 <= i < self.alliances.len() && (#[trigger] self.alliances[i]).joins(a, b)
    }

    /// Players are friendly with themselves, their team and their allies.
    pub open spec fn is_friendly(self, a: u16, b: u16) -> bool {
        a == b || self.on_same_team(a, b) || self.allied(a, b)
    }

    /// What a player pays for its next unit of this kind.
    pub open spec fn cost(self, sid: u16, unit: UnitType) -> int {
        if self.has(sid) {
            self.player(sid).costs.price(unit) as int
        } else {
            0
        }
    }

    /// Whether a player is in the team of this name.
    pub open spec fn in_team(self, sid: u16, team: Seq<char>) -> bool {
        self.has(sid) && self.player(sid).team is Some && self.player(sid).team->0@ == team
    }

    /// The number of land tiles.
    pub open spec fn land(self) -> int {
        self.map.count_land(self.map.tiles.len()) as int
    }

    /// The number of land tiles without fallout, as far as fallout is counted on land.
    pub open spec fn clean_land(self) -> int {
        self.land() - self.map.count_fallout(self.map.tiles.len())
    }

    /// The players in the game, by small id.
    pub open spec fn ids(self) -> Seq<u16> {
        Seq::new(self.players.len(), |i: int| (i + 1) as u16)
    }

    /// The players that are alive, by small id.
    pub open spec fn alive_ids(self) -> Seq<u16> {
        self.ids().filter(|sid: u16| self.is_alive(sid))
    }

    /// The game with one more order.
    pub open spec fn ordering(self, order: Order) -> GameView {
        GameView { pending: self.pending.push(order), ..self }
    }

    /// The game with `player` in the place of the one with its small id.
    pub open spec fn with_player(self, sid: u16, player: Player) -> GameView {
        GameView { players: self.players.update(sid - 1, player), ..self }
    }
}

/// The position of the relation from `from` to `to`.
pub open spec fn relation_at(relations: Seq<RelationEntry>, from: u16, to: u16) -> int
    decreases relations.len(),
{
    if relations.len() == 0 {
        0
    } else if relations[0].from == from && relations[0].to == to {
        0
    } else {
        1 + relation_at(relations.skip(1), from, to)
    }
}

/// `value` kept between the worst and the best relation.
pub open spec fn clamp_relation(value: int) -> i32 {
    if value < -RELATION_LIMIT {
        (-RELATION_LIMIT) as i32
    } else if value > RELATION_LIMIT {
        RELATION_LIMIT
    } else {
        value as i32
    }
}

impl GameView {
    /// How `from` regards `to`, as a value.
    pub open spec fn relation_value(self, from: u16, to: u16) -> int {
        let at = relation_at(self.relations, from, to);
        if at < self.relations.len() {
            self.relations[at].value as int
        } else {
            0
        }
    }

    pub open spec fn relation(self, from: u16, to: u16) -> Relation {
        Relation::of_value(self.relation_value(from, to))
    }

    /// The game after the relation from `from` to `to` changed by `delta` points.
    pub open spec fn relating(self, from: u16, to: u16, delta: int) -> GameView {
        let at = relation_at(self.relations, from, to);
        let value = clamp_relation(self.relation_value(from, to) + delta * RELATION_SCALE);
        let entry = RelationEntry { from, to, value };
        GameView {
            relations: if at < self.relations.len() {
                self.relations.update(at, entry)
            } else {
                self.relations.push(entry)
            },
            ..self
        }
    }

    /// The players that `sid` has a relation to and that are alive, worst first.
    pub open spec fn relations_sorted(self, sid: u16) -> Seq<u16> {
        crate::lists::payloads(
            crate::lists::sort_by_key(
                self.relations.filter(
                    |e: RelationEntry| e.from == sid && self.is_alive(e.to),
                ).map_values(|e: RelationEntry| (e.value as i64, e.to)),
            ),
        )
    }

    /// The embargo that `from` holds against `to`.
    pub open spec fn embargoed(self, from: u16, to: u16) -> bool {
        exists|i: int|
            0 <= i < self.embargoes.len() && (#[trigger] self.embargoes[i]).from == from
                && self.embargoes[i].to == to
    }

    pub open spec fn permanently_embargoed(self, from: u16, to: u16) -> bool {
        exists|i: int|
            0 <= i < self.embargoes.len() && (#[trigger] self.embargoes[i]).from == from
                && self.embargoes[i].to == to && !self.embargoes[i].temporary
    }

    pub open spec fn can_trade(self, a: u16, b: u16) -> bool {
        a != b && !self.embargoed(a, b) && !self.embargoed(b, a)
    }

    /// The game after `from` lifted its embargo against `to`.
    pub open spec fn unembargoing(self, from: u16, to: u16) -> GameView {
        GameView {
            embargoes: self.embargoes.filter(|e: Embargo| !(e.from == from && e.to == to)),
            ..self
        }
    }

    /// The game after `from` laid an embargo on `to`; one that is permanent already stays.
    pub open spec fn embargoing(self, from: u16, to: u16, temporary: bool, tick: u32) -> GameView {
        if self.permanently_embargoed(from, to) {
            self
        } else {
            GameView {
                embargoes: self.unembargoing(from, to).embargoes.push(
                    Embargo { from, to, temporary, created_at: tick },
                ),
                ..self
            }
        }
    }

    /// The game without the alliance of `a` and `b`.
    pub open spec fn unallied(self, a: u16, b: u16) -> GameView {
        GameView { alliances: self.alliances.filter(|x: Alliance| !x.joins(a, b)), ..self }
    }

    /// The game after `breaker` ended its alliance with `other`, which makes it a traitor.
    pub open spec fn betraying(self, breaker: u16, other: u16) -> GameView {
        let parted = self.unallied(breaker, other);
        if self.allied(breaker, other) && self.has(breaker) {
            parted.with_player(breaker, Player { traitor: true, ..self.player(breaker) })
        } else {
            parted
        }
    }

    pub open spec fn alliance_count(self, sid: u16) -> nat {
        self.alliances.filter(|x: Alliance| x.involves(sid)).len()
    }

    /// The allies of a player, oldest alliance first.
    pub open spec fn allies(self, sid: u16) -> Seq<u16> {
        self.alliances.filter(|x: Alliance| x.involves(sid)).map_values(|x: Alliance| x.other(sid))
    }

    /// A request from `a` to `b` waits for its answer.
    pub open spec fn requested(self, a: u16, b: u16) -> bool {
        exists|i: int| 0 <= i < self.requests.len() && (#[trigger] self.requests[i]).pends(a, b)
    }

    /// Requests from `a` to `b` that wait for their answer.
    pub open spec fn awaiting(a: u16, b: u16) -> spec_fn(AllianceRequest) -> bool {
        |r: AllianceRequest| r.pends(a, b)
    }

    /// The game after the request from `a` to `b` got its answer.
    pub open spec fn answering(self, a: u16, b: u16, status: AllianceRequestStatus) -> GameView {
        GameView {
            requests: self.requests.map_values(
                |r: AllianceRequest|
                    if r.pends(a, b) {
                        AllianceRequest { status, ..r }
                    } else {
                        r
                    },
            ),
            ..self
        }
    }

    /// The game after the request from `a` to `b` was accepted: they are allied, and each
    /// regards the other better.
    pub open spec fn accepting(self, a: u16, b: u16, tick: u32) -> GameView {
        let answered = self.answering(a, b, AllianceRequestStatus::Accepted);
        GameView {
            alliances: self.alliances.push(
                Alliance {
                    requestor: a,
                    recipient: b,
                    expires_at: (tick + self.config.alliance_duration) as u64,
                    requestor_extends: false,
                    recipient_extends: false,
                },
            ),
            ..answered
        }.relating(a, b, 100).relating(b, a, 100)
    }

    /// The game after `a` asked `b` for an alliance. Where `b` had asked first, they are
    /// allied.
    pub open spec fn requesting(self, a: u16, b: u16, tick: u32) -> GameView {
        if self.requested(b, a) {
            self.accepting(b, a, tick)
        } else {
            GameView {
                requests: self.requests.push(
                    AllianceRequest {
                        requestor_small_id: a,
                        recipient_small_id: b,
                        created_at: tick,
                        status: AllianceRequestStatus::Pending,
                    },
                ),
                ..self
            }
        }
    }

    /// Whether `a` may ask `b` for an alliance.
    pub open spec fn may_request(self, a: u16, b: u16) -> bool {
        &&& a != b
        &&& self.is_alive(a)
        &&& self.is_alive(b)
        &&& !self.player(a).is_disconnected
        &&& !self.player(b).is_disconnected
        &&& !self.is_friendly(a, b)
        &&& !self.requested(a, b)
    }

    /// Whether `sender` may send an emoji to `recipient`, or to all.
    pub open spec fn may_send_emoji(self, sender: u16, recipient: Option<u16>) -> bool {
        &&& self.has(sender)
        &&& recipient != Some(sender)
        &&& forall|i: int|
            0 <= i < self.emojis.len() ==> !((#[trigger] self.emojis[i]).sender == sender
                && self.emojis[i].recipient == recipient && self.tick - self.emojis[i].tick
                < EMOJI_COOLDOWN)
    }

    /// The game after an emoji was sent.
    pub open spec fn emoting(self, sender: u16, recipient: Option<u16>) -> GameView {
        GameView {
            emojis: self.emojis.push(EmojiSend { sender, recipient, tick: self.tick }),
            ..self
        }
    }
}

/// A game.
pub struct Game {
    pub tick: u32,
    pub spawn_phase: bool,
    pub spawn_immunity: bool,
    pub winner: Option<String>,
    pub wire: Config,
    pub map: GameMap,
    pub players: Vec<Player>,
    pub borders: Vec<OrderedTiles>,
    pub units: Vec<Unit>,
    pub next_unit_id: i32,
    pub launches: Vec<Launch>,
    pub relations: Vec<RelationEntry>,
    pub alliances: Vec<Alliance>,
    pub alliance_requests: Vec<AllianceRequest>,
    pub embargoes: Vec<Embargo>,
    pub attacks: Vec<LandAttack>,
    pub emojis: Vec<EmojiSend>,
    pub targets: Vec<TargetMark>,
    pub mirv_hits: Vec<MirvHit>,
    pub flights: Vec<Flight>,
    pub drowning: Vec<TileRef>,
    pub water_tick: Option<u32>,
    pub water: Vec<SharedWater>,
    pub transport_kills: Vec<TransportKill>,
    pub rails_due: bool,
    pub pending: Vec<ExecEnum>,
}

/// The members of each player's border.
pub open spec fn border_views(borders: Seq<OrderedTiles>) -> Seq<Seq<TileRef>> {
    borders.map_values(|b: OrderedTiles| b@)
}

/// The flights of missiles as contracts see them.
pub open spec fn flight_views(flights: Seq<Flight>) -> Seq<FlightView> {
    flights.map_values(|f: Flight| f@)
}

/// Attacks as contracts see them.
pub open spec fn attack_views(attacks: Seq<LandAttack>) -> Seq<LandAttackView> {
    attacks.map_values(|a: LandAttack| a@)
}

/// What players share of the water as contracts see it.
pub open spec fn water_views(water: Seq<SharedWater>) -> Seq<SharedWaterView> {
    water.map_values(|w: SharedWater| w@)
}

/// Whether nothing has come of any of these executions yet.
#[verifier::opaque]
pub open spec fn all_fresh(executions: Seq<ExecEnum>) -> bool {
    forall|i: int| 0 <= i < executions.len() ==> (#[trigger] executions[i]).is_fresh()
}

/// The orders behind executions.
pub open spec fn orders_of(executions: Seq<ExecEnum>) -> Seq<Order> {
    executions.map_values(|e: ExecEnum| e.order())
}

impl View for Game {
    type V = GameView;

    open spec fn view(&self) -> GameView {
        GameView {
            tick: self.tick,
            spawn_phase: self.spawn_phase,
            spawn_immunity: self.spawn_immunity,
            winner: crate::orders::text(self.winner),
            config: self.wire,
            map: self.map@,
            players: self.players@,
            borders: border_views(self.borders@),
            units: self.units@,
            next_unit_id: self.next_unit_id,
            launches: self.launches@,
            relations: self.relations@,
            alliances: self.alliances@,
            requests: self.alliance_requests@,
            embargoes: self.embargoes@,
            attacks: attack_views(self.attacks@),
            emojis: self.emojis@,
            targets: self.targets@,
            mirv_hits: self.mirv_hits@,
            flights: flight_views(self.flights@),
            drowning: self.drowning@,
            water_tick: self.water_tick,
            water: water_views(self.water@),
            kills: self.transport_kills@,
            rails_due: self.rails_due,
            pending: orders_of(self.pending@),
        }
    }
}

impl Game {
    /// The game is sound, and so are the sets that hold its borders.
    pub open spec fn wf(&self) -> bool {
        &&& self@.wf()
        &&& forall|i: int| 0 <= i < self.borders@.len() ==> (#[trigger] self.borders@[i]).wf()
        &&& all_fresh(self.pending@)
    }

    /// A game on `map`, without players, in its spawn phase.
    pub fn new(config: Config, map: GameMap) -> (game: Game)
        requires
            config.wf(),
            map@.wf(),
        ensures
            game.wf(),
            game@ == GameView::empty(config, map@),
    {
        reveal(all_fresh);
        let game = Game {
            tick: 0,
            spawn_phase: true,
            spawn_immunity: false,
            winner: None,
            wire: config,
            map,
            players: Vec::new(),
            borders: Vec::new(),
            units: Vec::new(),
            next_unit_id: 1,
            launches: Vec::new(),
            relations: Vec::new(),
            alliances: Vec::new(),
            alliance_requests: Vec::new(),
            embargoes: Vec::new(),
            attacks: Vec::new(),
            emojis: Vec::new(),
            targets: Vec::new(),
            mirv_hits: Vec::new(),
            flights: Vec::new(),
            drowning: Vec::new(),
            water_tick: None,
            water: Vec::new(),
            transport_kills: Vec::new(),
            rails_due: false,
            pending: Vec::new(),
        };
        assert(game@ =~= GameView::empty(config, map@));
        game
    }

    /// Adds a player and gives it the next small id, which it returns.
    pub fn add_player(&mut self, player: Player) -> (small_id: u16)
        requires
            old(self).wf(),
            old(self)@.players.len() < MAX_PLAYERS,
            player.wf(),
        ensures
            final(self).wf(),
            small_id == old(self)@.players.len() + 1,
            final(self)@ == (GameView {
                players: old(self)@.players.push(Player { small_id, ..player }),
                borders: old(self)@.borders.push(Seq::empty()),
                ..old(self)@
            }),
    {
        let small_id: u16 = self.players.len() as u16 + 1;
        let mut player = player;
        player.small_id = small_id;
        self.players.push(player);
        self.borders.push(OrderedTiles::default());
        assert(border_views(self.borders@) =~= border_views(old(self).borders@).push(Seq::empty()));
        small_id
    }

    pub fn ticks(&self) -> (tick: u32)
        ensures
            tick == self@.tick,
    {
        self.tick
    }

    pub fn in_spawn_phase(&self) -> (spawning: bool)
        ensures
            spawning == self@.spawn_phase,
    {
        self.spawn_phase
    }

    pub fn end_spawn_phase(&mut self)
        requires
            old(self).wf(),
        ensures
            final(self).wf(),
            final(self)@ == (GameView { spawn_phase: false, ..old(self)@ }),
    {
        self.spawn_phase = false;
    }

    /// The small id that stands for nobody.
    pub fn terra_nullius_id(&self) -> (id: u16)
        ensures
            id == 0,
    {
        0
    }

    pub fn player_by_small_id(&self, sid: u16) -> (player: Option<&Player>)
        ensures
            player == (if self@.has(sid) {
                Some(&self@.player(sid))
            } else {
                None
            }),
    {
        if sid >= 1 && sid as usize <= self.players.len() {
            Some(&self.players[sid as usize - 1])
        } else {
            None
        }
    }

    pub fn player_by_small_id_mut(&mut self, sid: u16) -> (player: Option<&mut Player>)
        ensures
            player is Some == old(self)@.has(sid),
            player is Some ==> *player->0 == old(self)@.player(sid),
            final(self)@ == (match player {
                Some(p) => old(self)@.with_player(sid, *final(p)),
                None => old(self)@,
            }),
            final(self).borders@ == old(self).borders@,
    {
        if sid >= 1 && sid as usize <= self.players.len() {
            Some(&mut self.players[sid as usize - 1])
        } else {
            None
        }
    }

    pub fn is_friendly(&self, a: u16, b: u16) -> (friendly: bool)
        ensures
            friendly == self@.is_friendly(a, b),
    {
        a == b || self.players_on_same_team(a, b) || self.is_allied_with(a, b)
    }

    pub fn players_on_same_team(&self, a: u16, b: u16) -> (same: bool)
        ensures
            same == self@.on_same_team(a, b),
    {
        if a == b {
            return false;
        }
        match (self.player_by_small_id(a), self.player_by_small_id(b)) {
            (Some(p), Some(q)) => crate::state::is_same_team(&p.team, &q.team),
            _ => false,
        }
    }

    pub fn is_allied_with(&self, a: u16, b: u16) -> (allied: bool)
        ensures
            allied == self@.allied(a, b),
    {
        for i in 0..self.alliances.len()
            invariant
                forall|k: int| 0 <= k < i ==> !(#[trigger] self.alliances@[k]).joins(a, b),
        {
            if self.alliances[i].is_between(a, b) {
                assert(self@.alliances[i as int].joins(a, b));
                return true;
            }
        }
        false
    }

    pub fn is_traitor(&self, sid: u16) -> (traitor: bool)
        ensures
            traitor == self@.is_traitor(sid),
    {
        match self.player_by_small_id(sid) {
            Some(p) => p.traitor,
            None => false,
        }
    }

    /// The troops of a player; 0 where nobody has this id.
    pub fn troops_of(&self, sid: u16) -> (troops: i64)
        requires
            self@.wf(),
        ensures
            troops == self@.troops(sid),
            0 <= troops <= MAX_TROOPS,
    {
        match self.player_by_small_id(sid) {
            Some(p) => {
                assert(self@.players[sid - 1].wf());
                p.troops
            },
            None => 0,
        }
    }

    /// The gold of a player; 0 where nobody has this id.
    pub fn gold_of(&self, sid: u16) -> (gold: i64)
        requires
            self@.wf(),
        ensures
            gold == self@.gold(sid),
            0 <= gold <= MAX_GOLD,
    {
        match self.player_by_small_id(sid) {
            Some(p) => {
                assert(self@.players[sid - 1].wf());
                p.gold
            },
            None => 0,
        }
    }

    /// The tiles that a player owns; 0 where nobody has this id.
    pub fn tiles_of(&self, sid: u16) -> (tiles: i64)
        requires
            self@.wf(),
        ensures
            tiles == self@.tiles_owned(sid),
            0 <= tiles <= 0xfffe_0001,
    {
        match self.player_by_small_id(sid) {
            Some(p) => {
                assert(self@.players[sid - 1].wf());
                p.tiles_owned
            },
            None => 0,
        }
    }

    /// The troop limit of a player, in thousandths.
    pub fn max_troops_for(&self, sid: u16) -> (milli: i64)
        requires
            self@.wf(),
        ensures
            milli == self@.max_troops_milli(sid),
            0 <= milli <= crate::config::MAX_TROOPS_LIMIT,
    {
        match self.player_by_small_id(sid) {
            Some(p) => {
                assert(self@.players[sid - 1].wf());
                p.max_troops_milli
            },
            None => 0,
        }
    }

    pub fn is_of_type(&self, sid: u16, player_type: PlayerType) -> (of_type: bool)
        ensures
            of_type == self@.of_type(sid, player_type),
    {
        match self.player_by_small_id(sid) {
            Some(p) => p.player_type == player_type,
            None => false,
        }
    }

    pub fn is_player_alive(&self, sid: u16) -> (alive: bool)
        ensures
            alive == self@.is_alive(sid),
    {
        match self.player_by_small_id(sid) {
            Some(p) => p.alive,
            None => false,
        }
    }

    pub fn structure_cost(&self, sid: u16, unit: UnitType) -> (cost: i64)
        requires
            self@.wf(),
        ensures
            cost == self@.cost(sid, unit),
            0 <= cost <= MAX_PRICE,
    {
        match self.player_by_small_id(sid) {
            Some(p) => {
                assert(self@.players[sid - 1].wf());
                p.costs.of(unit)
            },
            None => 0,
        }
    }

    pub fn is_on_same_team(&self, sid: u16, team: &String) -> (same: bool)
        ensures
            same == self@.in_team(sid, team@),
    {
        match self.player_by_small_id(sid) {
            Some(p) => match &p.team {
                Some(own) => *own == *team,
                None => false,
            },
            None => false,
        }
    }

    /// The number of land tiles.
    pub fn num_land_tiles(&self) -> (n: u32)
        requires
            self@.wf(),
        ensures
            n == self@.land(),
    {
        self.map.num_land_tiles()
    }

    /// The number of tiles with fallout.
    pub fn num_tiles_with_fallout(&self) -> (n: u32)
        requires
            self@.wf(),
        ensures
            n == self@.map.count_fallout(self@.map.tiles.len()),
    {
        self.map.num_tiles_with_fallout()
    }

    /// The small ids of all players.
    pub fn player_ids(&self) -> (ids: Vec<u16>)
        requires
            self@.wf(),
        ensures
            ids@ == self@.ids(),
            ids@.len() == self@.players.len(),
            forall|i: int| 0 <= i < ids@.len() ==> self@.has(#[trigger] ids@[i]),
    {
        let mut ids: Vec<u16> = Vec::new();
        for i in 0..self.players.len()
            invariant
                self@.wf(),
                ids@.len() == i,
                forall|k: int| 0 <= k < i ==> #[trigger] ids@[k] == k + 1,
        {
            ids.push(i as u16 + 1);
        }
        assert(ids@ =~= self@.ids());
        ids
    }

    /// The small ids of the players that are alive.
    pub fn players_alive(&self) -> (ids: Vec<u16>)
        requires
            self@.wf(),
        ensures
            ids@ == self@.alive_ids(),
            ids@.len() <= self@.players.len(),
    {
        let mut ids: Vec<u16> = Vec::new();
        let ghost alive = |sid: u16| self@.is_alive(sid);
        assert(self@.ids().take(0).filter(alive) =~= Seq::empty()) by {
            reveal(Seq::filter);
        }
        for i in 0..self.players.len()
            invariant
                self@.wf(),
                alive == (|sid: u16| self@.is_alive(sid)),
                ids@ == self@.ids().take(i as int).filter(alive),
                ids@.len() <= i,
        {
            proof {
                crate::lists::lemma_filter_step(self@.ids(), alive, i as int);
            }
            if self.players[i].alive {
                ids.push(i as u16 + 1);
            }
        }
        proof {
            crate::lists::lemma_take_all(self@.ids());
        }
        ids
    }

    /// Has the rail network work out its clusters anew.
    pub fn ask_for_rails(&mut self)
        requires
            old(self).wf(),
        ensures
            final(self).wf(),
            final(self)@ == (GameView { rails_due: true, ..old(self)@ }),
    {
        self.rails_due = true;
    }

    /// Whether the rail network was asked to work out its clusters, which it then does.
    pub fn take_rails_due(&mut self) -> (due: bool)
        requires
            old(self).wf(),
        ensures
            final(self).wf(),
            due == old(self)@.rails_due,
            final(self)@ == (GameView { rails_due: false, ..old(self)@ }),
    {
        let due: bool = self.rails_due;
        self.rails_due = false;
        due
    }

    /// Queues an execution.
    pub fn add_execution(&mut self, execution: ExecEnum)
        requires
            old(self).wf(),
            execution.is_fresh(),
        ensures
            final(self).wf(),
            final(self)@ == old(self)@.ordering(execution.order()),
    {
        reveal(all_fresh);
        self.pending.push(execution);
        assert(orders_of(self.pending@) =~= orders_of(old(self).pending@).push(execution.order()));
    }

    fn relation_index(&self, from: u16, to: u16) -> (at: usize)
        ensures
            at == relation_at(self@.relations, from, to),
            at <= self@.relations.len(),
    {
        let mut at: usize = 0;
        assert(self.relations@.skip(0) =~= self.relations@);
        while at < self.relations.len()
            invariant
                at <= self.relations@.len(),
                relation_at(self.relations@, from, to) == at + relation_at(
                    self.relations@.skip(at as int),
                    from,
                    to,
                ),
            decreases self.relations@.len() - at,
        {
            let ghost rest = self.relations@.skip(at as int);
            assert(rest[0] == self.relations@[at as int]);
            if self.relations[at].from == from && self.relations[at].to == to {
                return at;
            }
            assert(rest.skip(1) =~= self.relations@.skip(at + 1));
            at += 1;
        }
        at
    }

    /// How `from` regards `to`.
    pub fn relation(&self, from: u16, to: u16) -> (relation: Relation)
        ensures
            relation == self@.relation(from, to),
    {
        let at = self.relation_index(from, to);
        if at < self.relations.len() {
            Relation::from_value(self.relations[at].value)
        } else {
            Relation::from_value(0)
        }
    }

    /// Changes how `from` regards `to` by `delta` points, as far as the scale goes.
    pub fn update_relation(&mut self, from: u16, to: u16, delta: i32)
        requires
            old(self).wf(),
            -1000 <= delta <= 1000,
        ensures
            final(self).wf(),
            final(self)@ == old(self)@.relating(from, to, delta as int),
    {
        let at = self.relation_index(from, to);
        let held: i64 = if at < self.relations.len() {
            self.relations[at].value as i64
        } else {
            0
        };
        let wanted: i64 = held + delta as i64 * 100;
        let value: i32 = if wanted < -10_000 {
            -10_000
        } else if wanted > 10_000 {
            10_000
        } else {
            wanted as i32
        };
        let entry = RelationEntry { from, to, value };
        if at < self.relations.len() {
            self.relations.set(at, entry);
        } else {
            self.relations.push(entry);
        }
    }

    /// The players alive that `sid` has a relation to, worst first.
    pub fn all_relations_sorted(&self, sid: u16) -> (others: Vec<u16>)
        ensures
            others@ == self@.relations_sorted(sid),
    {
        let ghost p = |e: RelationEntry| e.from == sid && self@.is_alive(e.to);
        let ghost f = |e: RelationEntry| (e.value as i64, e.to);
        let mut entries: Vec<(i64, u16)> = Vec::new();
        assert(self.relations@.take(0).filter(p).map_values(f) =~= Seq::empty()) by {
            reveal(Seq::filter);
        }
        for i in 0..self.relations.len()
            invariant
                p == (|e: RelationEntry| e.from == sid && self@.is_alive(e.to)),
                f == (|e: RelationEntry| (e.value as i64, e.to)),
                entries@ == self.relations@.take(i as int).filter(p).map_values(f),
        {
            let e: RelationEntry = self.relations[i];
            proof {
                crate::lists::lemma_filter_step(self.relations@, p, i as int);
            }
            let ghost held = self.relations@.take(i as int).filter(p);
            if e.from == sid && self.is_player_alive(e.to) {
                entries.push((e.value as i64, e.to));
                assert(held.push(e).map_values(f) =~= held.map_values(f).push(f(e)));
            }
        }
        proof {
            crate::lists::lemma_take_all(self.relations@);
        }
        crate::lists::sorted_payloads(&entries)
    }

    pub fn has_embargo_against(&self, from: u16, to: u16) -> (embargo: bool)
        ensures
            embargo == self@.embargoed(from, to),
    {
        for i in 0..self.embargoes.len()
            invariant
                forall|k: int|
                    0 <= k < i ==> !((#[trigger] self.embargoes@[k]).from == from
                        && self.embargoes@[k].to == to),
        {
            if self.embargoes[i].from == from && self.embargoes[i].to == to {
                assert(self@.embargoes[i as int].from == from);
                return true;
            }
        }
        false
    }

    fn has_permanent_embargo(&self, from: u16, to: u16) -> (embargo: bool)
        ensures
            embargo == self@.permanently_embargoed(from, to),
    {
        for i in 0..self.embargoes.len()
            invariant
                forall|k: int|
                    0 <= k < i ==> !((#[trigger] self.embargoes@[k]).from == from
                        && self.embargoes@[k].to == to && !self.embargoes@[k].temporary),
        {
            if self.embargoes[i].from == from && self.embargoes[i].to == to
                && !self.embargoes[i].temporary {
                assert(self@.embargoes[i as int].from == from);
                return true;
            }
        }
        false
    }

    pub fn can_trade(&self, a: u16, b: u16) -> (may: bool)
        ensures
            may == self@.can_trade(a, b),
    {
        a != b && !self.has_embargo_against(a, b) && !self.has_embargo_against(b, a)
    }

    /// Lifts the embargo of `from` against `to`.
    pub fn stop_embargo(&mut self, from: u16, to: u16)
        requires
            old(self).wf(),
        ensures
            final(self).wf(),
            final(self)@ == old(self)@.unembargoing(from, to),
    {
        let ghost p = |e: Embargo| !(e.from == from && e.to == to);
        let mut kept: Vec<Embargo> = Vec::new();
        assert(self.embargoes@.take(0).filter(p) =~= Seq::empty()) by {
            reveal(Seq::filter);
        }
        for i in 0..self.embargoes.len()
            invariant
                p == (|e: Embargo| !(e.from == from && e.to == to)),
                kept@ == self.embargoes@.take(i as int).filter(p),
        {
            let e: Embargo = self.embargoes[i];
            proof {
                crate::lists::lemma_filter_step(self.embargoes@, p, i as int);
            }
            if !(e.from == from && e.to == to) {
                kept.push(e);
            }
        }
        proof {
            crate::lists::lemma_take_all(self.embargoes@);
        }
        self.embargoes = kept;
    }

    /// Lays an embargo of `from` on `to`.
    pub fn add_embargo(&mut self, from: u16, to: u16, temporary: bool, tick: u32)
        requires
            old(self).wf(),
        ensures
            final(self).wf(),
            final(self)@ == old(self)@.embargoing(from, to, temporary, tick),
    {
        if self.has_permanent_embargo(from, to) {
            return;
        }
        self.stop_embargo(from, to);
        self.embargoes.push(Embargo { from, to, temporary, created_at: tick });
    }

    fn drop_alliance(&mut self, a: u16, b: u16)
        requires
            old(self).wf(),
        ensures
            final(self).wf(),
            final(self)@ == old(self)@.unallied(a, b),
    {
        let ghost p = |x: Alliance| !x.joins(a, b);
        let mut kept: Vec<Alliance> = Vec::new();
        assert(self.alliances@.take(0).filter(p) =~= Seq::empty()) by {
            reveal(Seq::filter);
        }
        for i in 0..self.alliances.len()
            invariant
                p == (|x: Alliance| !x.joins(a, b)),
                kept@ == self.alliances@.take(i as int).filter(p),
        {
            let x: Alliance = self.alliances[i];
            proof {
                crate::lists::lemma_filter_step(self.alliances@, p, i as int);
            }
            if !x.is_between(a, b) {
                kept.push(x);
            }
        }
        proof {
            crate::lists::lemma_take_all(self.alliances@);
        }
        self.alliances = kept;
    }

    /// Ends the alliance of `breaker` and `other`; the breaker becomes a traitor.
    pub fn break_alliance_between(&mut self, breaker: u16, other: u16)
        requires
            old(self).wf(),
        ensures
            final(self).wf(),
            final(self)@ == old(self)@.betraying(breaker, other),
    {
        let allied = self.is_allied_with(breaker, other);
        self.drop_alliance(breaker, other);
        if allied && breaker >= 1 && breaker as usize <= self.players.len() {
            self.players[breaker as usize - 1].traitor = true;
        }
    }

    /// Ends the alliance of `a` and `b` without blame.
    pub fn break_alliance_silently(&mut self, a: u16, b: u16)
        requires
            old(self).wf(),
        ensures
            final(self).wf(),
            final(self)@ == old(self)@.unallied(a, b),
    {
        self.drop_alliance(a, b);
    }

    /// The allies of a player, oldest alliance first.
    pub fn allied_small_ids(&self, sid: u16) -> (allies: Vec<u16>)
        ensures
            allies@ == self@.allies(sid),
    {
        let ghost p = |x: Alliance| x.involves(sid);
        let ghost f = |x: Alliance| x.other(sid);
        let mut allies: Vec<u16> = Vec::new();
        assert(self.alliances@.take(0).filter(p).map_values(f) =~= Seq::empty()) by {
            reveal(Seq::filter);
        }
        for i in 0..self.alliances.len()
            invariant
                p == (|x: Alliance| x.involves(sid)),
                f == (|x: Alliance| x.other(sid)),
                allies@ == self.alliances@.take(i as int).filter(p).map_values(f),
        {
            let x: Alliance = self.alliances[i];
            proof {
                crate::lists::lemma_filter_step(self.alliances@, p, i as int);
            }
            let ghost held = self.alliances@.take(i as int).filter(p);
            if x.requestor == sid || x.recipient == sid {
                allies.push(if x.requestor == sid {
                    x.recipient
                } else {
                    x.requestor
                });
                assert(held.push(x).map_values(f) =~= held.map_values(f).push(f(x)));
            }
        }
        proof {
            crate::lists::lemma_take_all(self.alliances@);
        }
        allies
    }

    pub fn alliance_count(&self, sid: u16) -> (n: usize)
        ensures
            n == self@.alliance_count(sid),
    {
        self.allied_small_ids(sid).len()
    }

    /// Whether a request from `a` to `b` waits for its answer.
    pub fn has_pending_request(&self, a: u16, b: u16) -> (pending: bool)
        ensures
            pending == self@.requested(a, b),
    {
        match self.pending_alliance_request(a, b) {
            Some(_) => true,
            None => false,
        }
    }

    /// The request from `a` to `b` that waits for its answer.
    pub fn pending_alliance_request(&self, a: u16, b: u16) -> (request: Option<AllianceRequest>)
        ensures
            request == crate::lists::first_where(self@.requests, GameView::awaiting(a, b)),
            request is Some == self@.requested(a, b),
    {
        let ghost p = GameView::awaiting(a, b);
        proof {
            crate::lists::lemma_take_all(self.alliance_requests@);
        }
        for i in 0..self.alliance_requests.len()
            invariant
                p == GameView::awaiting(a, b),
                crate::lists::first_where(self.alliance_requests@, p) == crate::lists::first_where(
                    self.alliance_requests@.skip(i as int),
                    p,
                ),
                forall|k: int| 0 <= k < i ==> !(#[trigger] self.alliance_requests@[k]).pends(a, b),
        {
            let r: AllianceRequest = self.alliance_requests[i];
            if r.requestor_small_id == a && r.recipient_small_id == b && r.status
                == AllianceRequestStatus::Pending {
                proof {
                    crate::lists::lemma_first_where_found(self.alliance_requests@, p, i as int);
                    assert(self@.requests[i as int].pends(a, b));
                }
                return Some(r);
            }
            proof {
                crate::lists::lemma_first_where_step(self.alliance_requests@, p, i as int);
            }
        }
        None
    }

    fn answer_request(&mut self, a: u16, b: u16, status: AllianceRequestStatus)
        requires
            old(self).wf(),
        ensures
            final(self).wf(),
            final(self)@ == old(self)@.answering(a, b, status),
    {
        let ghost f = |r: AllianceRequest|
            if r.pends(a, b) {
                AllianceRequest { status, ..r }
            } else {
                r
            };
        let mut answered: Vec<AllianceRequest> = Vec::new();
        for i in 0..self.alliance_requests.len()
            invariant
                f == (|r: AllianceRequest|
                    if r.pends(a, b) {
                        AllianceRequest { status, ..r }
                    } else {
                        r
                    }),
                answered@ == self.alliance_requests@.take(i as int).map_values(f),
        {
            let mut r: AllianceRequest = self.alliance_requests[i];
            let ghost held = r;
            if r.requestor_small_id == a && r.recipient_small_id == b && r.status
                == AllianceRequestStatus::Pending {
                r.status = status;
            }
            answered.push(r);
            assert(r == f(held));
            assert(self.alliance_requests@.take(i + 1).map_values(f) =~= self.alliance_requests@.take(
                i as int,
            ).map_values(f).push(f(held)));
        }
        proof {
            crate::lists::lemma_take_all(self.alliance_requests@);
        }
        self.alliance_requests = answered;
    }

    /// Turns down the request from `a` to `b`.
    pub fn reject_alliance_request(&mut self, a: u16, b: u16)
        requires
            old(self).wf(),
        ensures
            final(self).wf(),
            final(self)@ == old(self)@.answering(a, b, AllianceRequestStatus::Rejected),
    {
        self.answer_request(a, b, AllianceRequestStatus::Rejected);
    }

    /// Accepts the request from `a` to `b`.
    pub fn accept_alliance_request(&mut self, a: u16, b: u16, tick: u32)
        requires
            old(self).wf(),
        ensures
            final(self).wf(),
            final(self)@ == old(self)@.accepting(a, b, tick),
    {
        self.answer_request(a, b, AllianceRequestStatus::Accepted);
        let expires_at: u64 = tick as u64 + self.wire.alliance_duration as u64;
        self.alliances.push(
            Alliance {
                requestor: a,
                recipient: b,
                expires_at,
                requestor_extends: false,
                recipient_extends: false,
            },
        );
        self.update_relation(a, b, 100);
        self.update_relation(b, a, 100);
    }

    /// Asks `b` for an alliance on behalf of `a`; where `b` had asked first, they are
    /// allied at once.
    pub fn create_alliance_request(&mut self, a: u16, b: u16, tick: u32) -> (created: bool)
        requires
            old(self).wf(),
        ensures
            final(self).wf(),
            final(self)@ == old(self)@.requesting(a, b, tick),
            created,
    {
        if self.has_pending_request(b, a) {
            self.accept_alliance_request(b, a, tick);
            return true;
        }
        self.alliance_requests.push(
            AllianceRequest {
                requestor_small_id: a,
                recipient_small_id: b,
                created_at: tick,
                status: AllianceRequestStatus::Pending,
            },
        );
        true
    }

    pub fn can_send_alliance_request(&self, a: u16, b: u16) -> (may: bool)
        ensures
            may == self@.may_request(a, b),
    {
        if a == b || self.is_friendly(a, b) || self.has_pending_request(a, b) {
            return false;
        }
        match (self.player_by_small_id(a), self.player_by_small_id(b)) {
            (Some(p), Some(q)) => p.alive && q.alive && !p.is_disconnected && !q.is_disconnected,
            _ => false,
        }
    }

    pub fn can_send_emoji(&self, sender: u16, recipient: Option<u16>) -> (may: bool)
        ensures
            may == self@.may_send_emoji(sender, recipient),
    {
        if sender < 1 || sender as usize > self.players.len() {
            return false;
        }
        if let Some(r) = recipient {
            if r == sender {
                return false;
            }
        }
        for i in 0..self.emojis.len()
            invariant
                forall|k: int|
                    0 <= k < i ==> !((#[trigger] self.emojis@[k]).sender == sender
                        && self.emojis@[k].recipient == recipient && self.tick - self.emojis@[k].tick
                        < EMOJI_COOLDOWN),
        {
            let e: EmojiSend = self.emojis[i];
            let same: bool = match (e.recipient, recipient) {
                (Some(x), Some(y)) => x == y,
                (None, None) => true,
                _ => false,
            };
            if e.sender == sender && same && (self.tick as i64 - e.tick as i64)
                < EMOJI_COOLDOWN as i64 {
                assert(self@.emojis[i as int].sender == sender);
                return false;
            }
        }
        true
    }

    /// Notes that an emoji was sent.
    pub fn record_emoji_send(&mut self, sender: u16, recipient: Option<u16>)
        requires
            old(self).wf(),
        ensures
            final(self).wf(),
            final(self)@ == old(self)@.emoting(sender, recipient),
    {
        self.emojis.push(EmojiSend { sender, recipient, tick: self.tick });
    }
}

} // verus!
