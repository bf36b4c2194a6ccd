//! Asking for, refusing, breaking and extending alliances.

use vstd::prelude::*;

use crate::execution::Execution;
use crate::game::{Game, GameView};
use crate::orders::Order;
use crate::state::{Alliance, AllianceRequestStatus};

verus! {

/// A request for an alliance, which waits for its answer.
pub struct AllianceRequestExecution {
    pub requestor_small_id: u16,
    pub recipient_id: String,
    pub active: bool,
    pub initialized: bool,
}

impl AllianceRequestExecution {
    /// What the execution was created with.
    pub open spec fn order(&self) -> Order {
        Order::AllianceRequest { requestor: self.requestor_small_id, recipient: self.recipient_id@ }
    }

    pub fn new(requestor_small_id: u16, recipient_id: String) -> (execution: Self)
        ensures
            execution.requestor_small_id == requestor_small_id,
            execution.recipient_id == recipient_id,
            execution.active,
            !execution.initialized,
    {
        AllianceRequestExecution { requestor_small_id, recipient_id, active: true, initialized: false }
    }
}

/// A refusal of a request.
pub struct AllianceRejectExecution {
    pub requestor_id: String,
    pub recipient_small_id: u16,
    pub active: bool,
}

impl AllianceRejectExecution {
    /// What the execution was created with.
    pub open spec fn order(&self) -> Order {
        Order::AllianceReject { requestor: self.requestor_id@, recipient: self.recipient_small_id }
    }

    pub fn new(requestor_id: String, recipient_small_id: u16) -> (execution: Self)
        ensures
            execution.requestor_id == requestor_id,
            execution.recipient_small_id == recipient_small_id,
            execution.active,
    {
        AllianceRejectExecution { requestor_id, recipient_small_id, active: true }
    }
}

/// The end of an alliance, by one side.
pub struct BreakAllianceExecution {
    pub requestor_small_id: u16,
    pub recipient_id: String,
    pub recipient_small_id: Option<u16>,
    pub active: bool,
}

impl BreakAllianceExecution {
    /// What the execution was created with.
    pub open spec fn order(&self) -> Order {
        Order::BreakAlliance { requestor: self.requestor_small_id, recipient: self.recipient_id@ }
    }

    pub fn new(requestor_small_id: u16, recipient_id: String) -> (execution: Self)
        ensures
            execution.requestor_small_id == requestor_small_id,
            execution.recipient_id == recipient_id,
            execution.recipient_small_id is None,
            execution.active,
    {
        BreakAllianceExecution { requestor_small_id, recipient_id, recipient_small_id: None, active: true }
    }
}

/// A wish to extend an alliance.
pub struct AllianceExtensionExecution {
    pub from_small_id: u16,
    pub recipient_id: String,
    pub active: bool,
}

impl AllianceExtensionExecution {
    /// What the execution was created with.
    pub open spec fn order(&self) -> Order {
        Order::AllianceExtension { from: self.from_small_id, recipient: self.recipient_id@ }
    }

    pub fn new(from_small_id: u16, recipient_id: String) -> (execution: Self)
        ensures
            execution.from_small_id == from_small_id,
            execution.recipient_id == recipient_id,
            execution.active,
    {
        AllianceExtensionExecution { from_small_id, recipient_id, active: true }
    }
}

impl AllianceRequestExecution {
    pub fn requestor_small_id(&self) -> (small_id: u16)
        ensures
            small_id == self.requestor_small_id,
    {
        self.requestor_small_id
    }

    pub fn recipient_id(&self) -> (id: &str)
        ensures
            id@ == self.recipient_id@,
    {
        self.recipient_id.as_str()
    }

    /// Whether the request is made.
    pub open spec fn may(&self, game: GameView) -> bool {
        !game.config.disable_alliances && match game.known(self.recipient_id@) {
            Some(to) => game.may_request(self.requestor_small_id, to),
            None => false,
        }
    }

    /// The game after the request was made.
    pub open spec fn made(&self, game: GameView, tick: u32) -> GameView {
        game.requesting(self.requestor_small_id, game.known(self.recipient_id@)->0, tick)
    }

    /// The execution after it began: it goes on as long as the request waits.
    pub open spec fn first(&self, game: GameView, tick: u32) -> AllianceRequestExecution {
        if !self.active || self.initialized {
            *self
        } else {
            AllianceRequestExecution {
                initialized: true,
                active: self.may(game) && self.made(game, tick).requested(
                    self.requestor_small_id,
                    game.known(self.recipient_id@)->0,
                ),
                ..*self
            }
        }
    }

    /// Whether the request waits for its answer.
    pub open spec fn waits(&self, game: GameView) -> bool {
        match game.known(self.recipient_id@) {
            Some(to) => game.requested(self.requestor_small_id, to),
            None => false,
        }
    }

    /// Whether a request that waits has waited too long.
    pub open spec fn is_stale(&self, game: GameView, tick: u32) -> bool {
        let request = crate::lists::first_where(
            game.requests,
            GameView::awaiting(self.requestor_small_id, game.known(self.recipient_id@)->0),
        );
        tick - request->0.created_at > game.config.alliance_request_duration
    }

    /// The execution after a tick: it ends with the answer or when it waited too long.
    pub open spec fn next(&self, game: GameView, tick: u32) -> AllianceRequestExecution {
        if !self.active || !self.initialized {
            *self
        } else {
            AllianceRequestExecution {
                active: self.waits(game) && !self.is_stale(game, tick),
                ..*self
            }
        }
    }
}

impl Execution for AllianceRequestExecution {
    open spec fn ready(&self, game: GameView) -> bool {
        true
    }

    open spec fn begun(&self, game: GameView, tick: u32) -> GameView {
        if self.active && !self.initialized && self.may(game) {
            self.made(game, tick)
        } else {
            game
        }
    }

    /// A request that waited too long is refused.
    open spec fn ticked(&self, game: GameView, tick: u32) -> GameView {
        if self.active && self.initialized && self.waits(game) && self.is_stale(game, tick) {
            game.answering(
                self.requestor_small_id,
                game.known(self.recipient_id@)->0,
                AllianceRequestStatus::Rejected,
            )
        } else {
            game
        }
    }

    open spec fn begun_as(&self, game: GameView, tick: u32, next: Self) -> bool {
        next == self.first(game, tick)
    }

    open spec fn ticked_as(&self, game: GameView, tick: u32, next: Self) -> bool {
        next == self.next(game, tick)
    }

    open spec fn going(&self) -> bool {
        self.active
    }

    fn init(&mut self, game: &mut Game, tick: u32) {
        if !self.active || self.initialized {
            return;
        }
        self.initialized = true;
        if game.wire.disable_alliances {
            self.active = false;
            return;
        }
        let to: u16 = match game.small_id_of(&self.recipient_id) {
            Some(to) => to,
            None => {
                self.active = false;
                return;
            },
        };
        if !game.can_send_alliance_request(self.requestor_small_id, to) {
            self.active = false;
            return;
        }
        if !game.create_alliance_request(self.requestor_small_id, to, tick) {
            self.active = false;
            return;
        }
        if game.pending_alliance_request(self.requestor_small_id, to).is_none() {
            self.active = false;
        }
    }

    fn tick(&mut self, game: &mut Game, tick: u32) {
        if !self.active || !self.initialized {
            return;
        }
        let to: u16 = match game.small_id_of(&self.recipient_id) {
            Some(to) => to,
            None => {
                self.active = false;
                return;
            },
        };
        match game.pending_alliance_request(self.requestor_small_id, to) {
            Some(request) => {
                let waited: i64 = tick as i64 - request.created_at as i64;
                if waited > game.wire.alliance_request_duration as i64 {
                    game.reject_alliance_request(self.requestor_small_id, to);
                    self.active = false;
                }
            },
            None => {
                self.active = false;
            },
        }
    }

    fn is_active(&self) -> (active: bool) {
        self.active
    }
}

impl Execution for AllianceRejectExecution {
    open spec fn ready(&self, game: GameView) -> bool {
        true
    }

    /// A request is refused unless the two are allied already.
    open spec fn begun(&self, game: GameView, tick: u32) -> GameView {
        match game.known(self.requestor_id@) {
            Some(from) => if self.active && !game.allied(from, self.recipient_small_id) {
                game.answering(from, self.recipient_small_id, AllianceRequestStatus::Rejected)
            } else {
                game
            },
            None => game,
        }
    }

    open spec fn ticked(&self, game: GameView, tick: u32) -> GameView {
        game
    }

    open spec fn begun_as(&self, game: GameView, tick: u32, next: Self) -> bool {
        next == (AllianceRejectExecution { active: false, ..*self })
    }

    open spec fn ticked_as(&self, game: GameView, tick: u32, next: Self) -> bool {
        next == *self
    }

    open spec fn going(&self) -> bool {
        self.active
    }

    fn init(&mut self, game: &mut Game, tick: u32) {
        if !self.active {
            return;
        }
        match game.small_id_of(&self.requestor_id) {
            Some(from) => {
                if !game.is_allied_with(from, self.recipient_small_id) {
                    game.reject_alliance_request(from, self.recipient_small_id);
                }
            },
            None => {},
        }
        self.active = false;
    }

    fn tick(&mut self, game: &mut Game, tick: u32) {
    }

    fn is_active(&self) -> (active: bool) {
        self.active
    }
}

impl GameView {
    /// The game after those of `others` that are not on the betrayed player's team thought
    /// worse of the traitor.
    pub open spec fn shunning(self, traitor: u16, betrayed: u16, others: Seq<u16>) -> GameView
        decreases others.len(),
    {
        if others.len() == 0 {
            self
        } else {
            let before = self.shunning(traitor, betrayed, others.drop_last());
            if before.on_same_team(others.last(), betrayed) {
                before
            } else {
                before.relating(others.last(), traitor, -40)
            }
        }
    }

    /// The game after a player broke its alliance with another: the other and the neighbors
    /// think worse of it.
    pub open spec fn breaking(self, traitor: u16, betrayed: u16) -> GameView {
        if self.allied(traitor, betrayed) {
            let broken = self.betraying(traitor, betrayed).relating(betrayed, traitor, -100);
            broken.shunning(traitor, betrayed, broken.near_ids(traitor))
        } else {
            self
        }
    }
}

impl Execution for BreakAllianceExecution {
    open spec fn ready(&self, game: GameView) -> bool {
        true
    }

    open spec fn begun(&self, game: GameView, tick: u32) -> GameView {
        game
    }

    open spec fn ticked(&self, game: GameView, tick: u32) -> GameView {
        match self.recipient_small_id {
            Some(to) => if self.active {
                game.breaking(self.requestor_small_id, to)
            } else {
                game
            },
            None => game,
        }
    }

    open spec fn begun_as(&self, game: GameView, tick: u32, next: Self) -> bool {
        &&& next.requestor_small_id == self.requestor_small_id
        &&& next.recipient_id == self.recipient_id
        &&& next.active == (self.active && game.known(self.recipient_id@) is Some)
        &&& next.recipient_small_id == (if next.active {
            game.known(self.recipient_id@)
        } else {
            self.recipient_small_id
        })
    }

    open spec fn ticked_as(&self, game: GameView, tick: u32, next: Self) -> bool {
        next == (BreakAllianceExecution { active: false, ..*self })
    }

    open spec fn going(&self) -> bool {
        self.active
    }

    fn init(&mut self, game: &mut Game, tick: u32) {
        if !self.active {
            return;
        }
        match game.small_id_of(&self.recipient_id) {
            Some(to) => {
                self.recipient_small_id = Some(to);
            },
            None => {
                self.active = false;
            },
        }
    }

    fn tick(&mut self, game: &mut Game, tick: u32) {
        if !self.active {
            return;
        }
        self.active = false;
        let to: u16 = match self.recipient_small_id {
            Some(to) => to,
            None => return,
        };
        let from: u16 = self.requestor_small_id;
        if game.is_allied_with(from, to) {
            game.break_alliance_between(from, to);
            game.update_relation(to, from, -100);
            let neighbors = crate::ai_attack::nearby_player_small_ids(game, from);
            let ghost broken = game@;
            assert(neighbors@.take(0) =~= Seq::empty());
            for i in 0..neighbors.len()
                invariant
                    game.wf(),
                    game@ == broken.shunning(from, to, neighbors@.take(i as int)),
            {
                assert(neighbors@.take(i + 1).drop_last() =~= neighbors@.take(i as int));
                if !game.players_on_same_team(neighbors[i], to) {
                    game.update_relation(neighbors[i], from, -40);
                }
            }
            proof {
                crate::lists::lemma_take_all(neighbors@);
            }
        }
    }

    fn is_active(&self) -> (active: bool) {
        self.active
    }
}

impl Execution for AllianceExtensionExecution {
    open spec fn ready(&self, game: GameView) -> bool {
        true
    }

    open spec fn begun(&self, game: GameView, tick: u32) -> GameView {
        match game.known(self.recipient_id@) {
            Some(to) => if self.active && game.is_alive(self.from_small_id) && game.is_alive(to) {
                game.extending(self.from_small_id, to)
            } else {
                game
            },
            None => game,
        }
    }

    open spec fn ticked(&self, game: GameView, tick: u32) -> GameView {
        game
    }

    open spec fn begun_as(&self, game: GameView, tick: u32, next: Self) -> bool {
        next == (AllianceExtensionExecution { active: false, ..*self })
    }

    open spec fn ticked_as(&self, game: GameView, tick: u32, next: Self) -> bool {
        next == *self
    }

    open spec fn going(&self) -> bool {
        self.active
    }

    fn init(&mut self, game: &mut Game, tick: u32) {
        if !self.active {
            return;
        }
        self.active = false;
        match game.small_id_of(&self.recipient_id) {
            Some(to) => {
                if game.is_player_alive(self.from_small_id) && game.is_player_alive(to) {
                    game.add_alliance_extension_request(self.from_small_id, to);
                }
            },
            None => {},
        }
    }

    fn tick(&mut self, game: &mut Game, tick: u32) {
    }

    fn is_active(&self) -> (active: bool) {
        self.active
    }
}

/// Who is not allied breaks nothing: the game stays as it was.
pub proof fn law_breaking_needs_an_alliance(game: GameView, a: u16, b: u16)
    requires
        !game.allied(a, b),
    ensures
        game.breaking(a, b) == game,
{
}

/// An alliance is over once it was broken.
pub proof fn law_broken_alliance(game: GameView, traitor: u16, betrayed: u16)
    requires
        game.allied(traitor, betrayed),
    ensures
        !game.breaking(traitor, betrayed).allied(traitor, betrayed),
        !game.breaking(traitor, betrayed).allied(betrayed, traitor),
{
    let broken = game.betraying(traitor, betrayed).relating(betrayed, traitor, -100);
    let left = game.unallied(traitor, betrayed).alliances;
    crate::lists::lemma_filter_holds(
        game.alliances,
        |x: Alliance| !x.joins(traitor, betrayed),
    );
    lemma_shunning(broken, traitor, betrayed, broken.near_ids(traitor));
    assert forall|i: int| 0 <= i < left.len() implies !(#[trigger] left[i]).joins(traitor, betrayed)
        && !left[i].joins(betrayed, traitor) by {
        assert(left.contains(left[i]));
    }
}

proof fn lemma_shunning(game: GameView, traitor: u16, betrayed: u16, others: Seq<u16>)
    ensures
        game.shunning(traitor, betrayed, others).alliances == game.alliances,
    decreases others.len(),
{
    if others.len() > 0 {
        lemma_shunning(game, traitor, betrayed, others.drop_last());
    }
}

} // verus!
