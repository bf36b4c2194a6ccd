//! What holds of the orders of players, and of how they are read.

use vstd::prelude::*;

use crate::alliance_exec::{AllianceRejectExecution, AllianceRequestExecution};
use crate::config::Difficulty;
use crate::decimal::{decimal, fixed, kept, magnitude, saturated};
use crate::embargo_exec::EmbargoAllExecution;
use crate::execution::Execution;
use crate::game::GameView;
use crate::intent::StampedIntent;
use crate::orders::Order;
use crate::state::{AllianceRequest, AllianceRequestStatus, PlayerType};
use crate::util::{hash_of, rolled};

verus! {

/// A number that was written in digits is read as that number.
pub proof fn law_digits(n: nat)
    ensures
        magnitude(decimal(n)) == n,
        n < 10 ==> decimal(n).len() == 1,
        n >= 10 ==> decimal(n).len() == decimal(n / 10).len() + 1,
    decreases n,
{
    reveal_strlit("0123456789");
    if n < 10 {
        let c = crate::decimal::DIGITS@[n as int];
        assert(decimal(n) =~= seq![c]);
        assert(seq![c].drop_last() =~= Seq::<char>::empty());
        assert(magnitude(Seq::<char>::empty()) == 0);
        assert(crate::decimal::digit(c) == n);
    } else {
        law_digits(n / 10);
        let c = crate::decimal::DIGITS@[n as int % 10];
        assert(crate::decimal::digit(c) == n % 10);
        assert(decimal(n).drop_last() =~= decimal(n / 10));
    }
}

/// With one more place a number is read ten times as large, and the digit in that place is
/// added.
pub proof fn law_places(text: Seq<char>, start: int, places: nat)
    ensures
        ({
            let (n, finer) = (
                magnitude(kept(text, start, places)),
                magnitude(kept(text, start, places + 1)),
            );
            10 * n <= finer <= 10 * n + 9
        }),
{
    let longer = kept(text, start, places + 1);
    assert(longer.drop_last() =~= kept(text, start, places));
}

/// A sign turns a number round, and nothing else about it.
pub proof fn law_signs(text: Seq<char>, places: nat)
    requires
        text.len() == 0 || text[0] != '-',
    ensures
        fixed(seq!['-'] + text, places) == -fixed(text, places),
        fixed(text, places) >= 0,
{
    let signed = seq!['-'] + text;
    assert(signed[0] == '-');
    lemma_point(text, 0);
    lemma_point_in(text, 0);
    assert(kept(signed, 1, places) =~= kept(text, 0, places));
    lemma_no_debt(kept(text, 0, places));
}

proof fn lemma_point(text: Seq<char>, at: int)
    requires
        0 <= at <= text.len(),
    ensures
        crate::decimal::point_from(seq!['-'] + text, at + 1) == crate::decimal::point_from(text, at)
            + 1,
    decreases text.len() - at,
{
    let signed = seq!['-'] + text;
    if at < text.len() {
        assert(signed[at + 1] == text[at]);
        if text[at] != '.' {
            lemma_point(text, at + 1);
        }
    }
}

proof fn lemma_point_in(text: Seq<char>, at: int)
    requires
        0 <= at <= text.len(),
    ensures
        at <= crate::decimal::point_from(text, at) <= text.len(),
    decreases text.len() - at,
{
    if at < text.len() && text[at] != '.' {
        lemma_point_in(text, at + 1);
    }
}

proof fn lemma_no_debt(digits: Seq<char>)
    ensures
        magnitude(digits) >= 0,
    decreases digits.len(),
{
    if digits.len() > 0 {
        lemma_no_debt(digits.drop_last());
    }
}

/// What fits in 64 bits is kept, and what does not is cut to the nearest that does.
pub proof fn law_saturated(n: int, m: int)
    ensures
        i64::MIN <= n <= i64::MAX ==> saturated(n) == n,
        n <= m ==> saturated(n) <= saturated(m),
{
}

/// One more character multiplies the rolling hash by 31 and adds to it, in 32 bits. The hash is
/// what is left of that as a signed number without its sign.
pub proof fn law_hash(s: Seq<char>, c: char)
    ensures
        0 <= rolled(s) < 0x1_0000_0000,
        (rolled(s.push(c)) - (31 * rolled(s) + c as int)) % 0x1_0000_0000 == 0,
        0 <= hash_of(s) <= 0x7fff_ffff,
        rolled(s) != 0x8000_0000 ==> hash_of(s) == rolled(s) || hash_of(s) == 0x1_0000_0000
            - rolled(s),
    decreases s.len(),
{
    assert(s.push(c).drop_last() =~= s);
    if s.len() > 0 {
        law_hash(s.drop_last(), s.last());
    }
    let n = 31 * rolled(s) + c as int;
    assert(rolled(s.push(c)) == n % 0x1_0000_0000);
    assert((n % 0x1_0000_0000 - n) % 0x1_0000_0000 == 0);
}

/// Who gives an order.
pub open spec fn giver(order: Order) -> Option<u16> {
    match order {
        Order::TransportShip { owner, .. } => Some(owner),
        Order::BoatRetreat { owner, .. } => Some(owner),
        Order::MarkDisconnected { small_id, .. } => Some(small_id),
        Order::Construction { small_id, .. } => Some(small_id),
        Order::UpgradeStructure { small_id, .. } => Some(small_id),
        Order::AllianceRequest { requestor, .. } => Some(requestor),
        Order::AllianceReject { recipient, .. } => Some(recipient),
        Order::BreakAlliance { requestor, .. } => Some(requestor),
        Order::AllianceExtension { from, .. } => Some(from),
        Order::DonateTroops { sender, .. } => Some(sender),
        Order::DonateGold { sender, .. } => Some(sender),
        Order::Embargo { player, .. } => Some(player),
        Order::EmbargoAll { player, .. } => Some(player),
        Order::TargetPlayer { requestor, .. } => Some(requestor),
        Order::Retreat { owner, .. } => Some(owner),
        Order::DeleteUnit { small_id, .. } => Some(small_id),
        Order::Emoji { requestor, .. } => Some(requestor),
        Order::MoveWarship { owner, .. } => Some(owner),
        Order::Attack { owner, .. } => Some(owner),
        _ => None,
    }
}

/// Whatever a client sends is ordered in the name of the player that it plays; a client that
/// plays none orders nothing.
pub proof fn law_orders_are_the_clients_own(intent: StampedIntent, game: GameView, id: Seq<char>)
    ensures
        match game.by_client(intent.client_id@) {
            Some(p) => {
                let order = intent.turn_order_in(game, id);
                &&& giver(order) == Some(p.small_id) || order == Order::NoOp || order is Spawn
                &&& order is Spawn ==> order->Spawn_id == p.id@ && order->Spawn_client_id == Some(
                    intent.client_id@,
                )
                &&& p.client_id@ == intent.client_id@
            },
            None => intent.turn_order_in(game, id) == Order::NoOp,
        },
{
    crate::lists::lemma_first_where(
        game.players,
        |p: crate::state::Player| p.client_id@ == intent.client_id@,
    );
}

/// A request that waits is refused once it has waited longer than it may, and not before; when
/// it waits no longer, nobody follows it up.
pub proof fn law_requests_expire(
    e: AllianceRequestExecution,
    game: GameView,
    tick: u32,
    to: u16,
    r: AllianceRequest,
)
    requires
        e.active,
        e.initialized,
        game.known(e.recipient_id@) == Some(to),
        crate::lists::first_where(game.requests, GameView::awaiting(e.requestor_small_id, to))
            == Some(r),
        game.requested(e.requestor_small_id, to),
    ensures
        tick - r.created_at > game.config.alliance_request_duration ==> !e.ticked(
            game,
            tick,
        ).requested(e.requestor_small_id, to) && !e.next(game, tick).active,
        e.ticked(game, tick).alliances == game.alliances,
        tick - r.created_at <= game.config.alliance_request_duration ==> e.ticked(game, tick) == game
            && e.next(game, tick).active,
{
    crate::laws_diplomacy::law_answering(
        game,
        e.requestor_small_id,
        to,
        AllianceRequestStatus::Rejected,
    );
}

/// A request is made only between two living players that are connected and no friends; it
/// waits then, or makes an alliance where the other had asked.
pub proof fn law_requests(e: AllianceRequestExecution, game: GameView, tick: u32, to: u16)
    requires
        e.active,
        !e.initialized,
        game.known(e.recipient_id@) == Some(to),
    ensures
        e.may(game) ==> {
            &&& e.requestor_small_id != to
            &&& game.player(e.requestor_small_id).alive && game.player(to).alive
            &&& !game.player(to).is_disconnected
            &&& !game.is_friendly(e.requestor_small_id, to)
            &&& !game.config.disable_alliances
            &&& game.requested(to, e.requestor_small_id) ==> e.begun(game, tick).allied(
                e.requestor_small_id,
                to,
            )
            &&& !game.requested(to, e.requestor_small_id) ==> e.begun(game, tick).requested(
                e.requestor_small_id,
                to,
            )
        },
        !e.may(game) ==> e.begun(game, tick) == game && !e.first(game, tick).active,
{
    let from = e.requestor_small_id;
    if e.may(game) {
        if game.requested(to, from) {
            crate::laws_diplomacy::law_accepting(game, to, from, tick);
        } else {
            let after = game.requesting(from, to, tick);
            assert(after.requests[game.requests.len() as int].pends(from, to));
        }
    }
}

/// A refusal answers the request, unless the two are allied already.
pub proof fn law_refusals(e: AllianceRejectExecution, game: GameView, tick: u32, from: u16)
    requires
        e.active,
        game.known(e.requestor_id@) == Some(from),
    ensures
        !game.allied(from, e.recipient_small_id) ==> !e.begun(game, tick).requested(
            from,
            e.recipient_small_id,
        ),
        game.allied(from, e.recipient_small_id) ==> e.begun(game, tick) == game,
        e.begun(game, tick).alliances == game.alliances,
{
    crate::laws_diplomacy::law_answering(
        game,
        from,
        e.recipient_small_id,
        AllianceRequestStatus::Rejected,
    );
}

proof fn lemma_embargoes(game: GameView, sid: u16, others: Seq<u16>, start: bool, tick: u32)
    ensures
        ({
            let after = game.embargoing_all(sid, others, start, tick);
            &&& after.players == game.players
            &&& after.tick == game.tick
            &&& forall|id: u16| #[trigger]
                others.contains(id) ==> after.embargoed(sid, id) == start
            &&& forall|id: u16|
                !others.contains(id) ==> #[trigger] after.embargoed(sid, id) == game.embargoed(
                    sid,
                    id,
                )
        }),
    decreases others.len(),
{
    if others.len() > 0 {
        let front = others.drop_last();
        let last = others.last();
        lemma_embargoes(game, sid, front, start, tick);
        let before = game.embargoing_all(sid, front, start, tick);
        let after = game.embargoing_all(sid, others, start, tick);
        lemma_one_embargo(before, sid, last, tick);
        assert(others[others.len() - 1] == last);
        assert forall|id: u16| #[trigger] others.contains(id) implies after.embargoed(sid, id)
            == start by {
            if id != last {
                let i = choose|i: int| 0 <= i < others.len() && others[i] == id;
                assert(front[i] == id);
                assert(front.contains(id));
            }
        }
        assert forall|id: u16|
            !others.contains(id) implies #[trigger] after.embargoed(sid, id) == game.embargoed(
            sid,
            id,
        ) by {
            if front.contains(id) {
                let i = choose|i: int| 0 <= i < front.len() && front[i] == id;
                assert(others[i] == id);
            }
            assert(id != last);
        }
    }
}

proof fn lemma_one_embargo(game: GameView, sid: u16, other: u16, tick: u32)
    ensures
        !game.unembargoing(sid, other).embargoed(sid, other),
        game.embargoing(sid, other, false, tick).embargoed(sid, other),
        forall|id: u16|
            id != other ==> #[trigger] game.unembargoing(sid, other).embargoed(sid, id)
                == game.embargoed(sid, id),
        forall|id: u16|
            id != other ==> #[trigger] game.embargoing(sid, other, false, tick).embargoed(sid, id)
                == game.embargoed(sid, id),
{
    let p = |e: crate::state::Embargo| !(e.from == sid && e.to == other);
    let lifted = game.unembargoing(sid, other);
    let laid = game.embargoing(sid, other, false, tick);
    crate::lists::lemma_filter_members(game.embargoes, p);
    if lifted.embargoed(sid, other) {
        let i = choose|i: int|
            0 <= i < lifted.embargoes.len() && (#[trigger] lifted.embargoes[i]).from == sid
                && lifted.embargoes[i].to == other;
        assert(lifted.embargoes.contains(lifted.embargoes[i]));
        assert(p(lifted.embargoes[i]));
    }
    if !game.permanently_embargoed(sid, other) {
        assert(laid.embargoes[lifted.embargoes.len() as int].from == sid);
    }
    assert forall|id: u16| id != other implies #[trigger] lifted.embargoed(sid, id)
        == game.embargoed(sid, id) by {
        lemma_other_embargo(game, sid, other, id);
    }
    assert forall|id: u16| id != other implies #[trigger] laid.embargoed(sid, id)
        == game.embargoed(sid, id) by {
        lemma_other_embargo(game, sid, other, id);
        if !game.permanently_embargoed(sid, other) {
            if lifted.embargoed(sid, id) {
                let i = choose|i: int|
                    0 <= i < lifted.embargoes.len() && (#[trigger] lifted.embargoes[i]).from == sid
                        && lifted.embargoes[i].to == id;
                assert(laid.embargoes[i] == lifted.embargoes[i]);
            }
            if laid.embargoed(sid, id) {
                let i = choose|i: int|
                    0 <= i < laid.embargoes.len() && (#[trigger] laid.embargoes[i]).from == sid
                        && laid.embargoes[i].to == id;
                assert(laid.embargoes[i] == lifted.embargoes[i]);
            }
        }
    }
}

proof fn lemma_other_embargo(game: GameView, sid: u16, other: u16, id: u16)
    requires
        id != other,
    ensures
        game.unembargoing(sid, other).embargoed(sid, id) == game.embargoed(sid, id),
{
    let p = |e: crate::state::Embargo| !(e.from == sid && e.to == other);
    let lifted = game.unembargoing(sid, other);
    crate::lists::lemma_filter_members(game.embargoes, p);
    if game.embargoed(sid, id) {
        let i = choose|i: int|
            0 <= i < game.embargoes.len() && (#[trigger] game.embargoes[i]).from == sid
                && game.embargoes[i].to == id;
        assert(p(game.embargoes[i]) && game.embargoes.contains(game.embargoes[i]));
        assert(lifted.embargoes.contains(game.embargoes[i]));
        let k = choose|k: int|
            0 <= k < lifted.embargoes.len() && lifted.embargoes[k] == game.embargoes[i];
        assert(lifted.embargoes[k].from == sid);
    }
    if lifted.embargoed(sid, id) {
        let i = choose|i: int|
            0 <= i < lifted.embargoes.len() && (#[trigger] lifted.embargoes[i]).from == sid
                && lifted.embargoes[i].to == id;
        assert(lifted.embargoes.contains(lifted.embargoes[i]));
        assert(game.embargoes.contains(lifted.embargoes[i]));
        let k = choose|k: int|
            0 <= k < game.embargoes.len() && game.embargoes[k] == lifted.embargoes[i];
        assert(game.embargoes[k].from == sid);
    }
}

/// An embargo against everybody hits every other player but bots and the own team, and its end
/// lifts it for the same ones; it can be had again only after ten seconds.
pub proof fn law_embargo_all(e: EmbargoAllExecution, game: GameView, tick: u32)
    ensures
        ({
            let sid = e.player_small_id;
            let after = e.begun(game, tick);
            &&& game.may_embargo_all(sid) ==> forall|id: u16| #[trigger]
                game.ids().contains(id) && id != sid && !game.of_type(id, PlayerType::Bot)
                    && !game.on_same_team(sid, id) ==> after.embargoed(sid, id) == e.action_start
            &&& forall|id: u16|
                game.of_type(id, PlayerType::Bot) || game.on_same_team(sid, id)
                    ==> #[trigger] after.embargoed(sid, id) == game.embargoed(sid, id)
            &&& game.has(sid) && game.player(sid).last_embargo_all_tick is Some && game.tick
                - game.player(sid).last_embargo_all_tick->0 < 100 ==> after == game
            &&& game.may_embargo_all(sid) ==> after.player(sid).last_embargo_all_tick == Some(
                game.tick,
            )
        }),
{
    let sid = e.player_small_id;
    let p = game.outsider(sid);
    let others = game.ids().filter(p);
    crate::lists::lemma_filter_members(game.ids(), p);
    lemma_embargoes(game, sid, others, e.action_start, tick);
    let laid = game.embargoing_all(sid, others, e.action_start, tick);
    let after = e.begun(game, tick);
    if game.may_embargo_all(sid) {
        assert(after.embargoes == laid.embargoes);
        assert forall|id: u16| #[trigger] after.embargoed(sid, id) == laid.embargoed(sid, id) by {
            if laid.embargoed(sid, id) {
                let i = choose|i: int|
                    0 <= i < laid.embargoes.len() && (#[trigger] laid.embargoes[i]).from == sid
                        && laid.embargoes[i].to == id;
                assert(after.embargoes[i].from == sid);
            }
            if after.embargoed(sid, id) {
                let i = choose|i: int|
                    0 <= i < after.embargoes.len() && (#[trigger] after.embargoes[i]).from == sid
                        && after.embargoes[i].to == id;
                assert(laid.embargoes[i].from == sid);
            }
        }
        assert forall|id: u16| #[trigger]
            game.ids().contains(id) && id != sid && !game.of_type(id, PlayerType::Bot)
                && !game.on_same_team(sid, id) implies after.embargoed(sid, id)
            == e.action_start by {
            assert(p(id));
            assert(others.contains(id));
        }
        assert forall|id: u16|
            game.of_type(id, PlayerType::Bot) || game.on_same_team(
                sid,
                id,
            ) implies #[trigger] after.embargoed(sid, id) == game.embargoed(sid, id) by {
            assert(!p(id));
            assert(!others.contains(id));
        }
    }
}

/// How a nation takes an emoji: an insult costs the sender a hundred points, mockery ten, and
/// in an easy game good will earns it fifteen. Others leave the nation cold.
pub proof fn law_emoji_effects(game: GameView, nation: u16, from: u16, emoji: i32)
    requires
        -8_000 <= game.relation_value(nation, from) <= 8_000,
    ensures
        ({
            let was = game.relation_value(nation, from);
            let is = game.minding_emoji(nation, from, emoji).relation_value(nation, from);
            &&& emoji == 14 ==> is == (if was - 10_000 < -10_000 {
                -10_000
            } else {
                was - 10_000
            })
            &&& emoji == 11 ==> is == was - 1_000
            &&& emoji == 2 && game.config.difficulty == Difficulty::Easy ==> is == was + 1_500
            &&& emoji == 2 && game.config.difficulty != Difficulty::Easy ==> is == was
            &&& is > was ==> game.config.difficulty == Difficulty::Easy
            &&& is < was ==> emoji == 14 || emoji == 11
        }),
{
    crate::laws_diplomacy::law_relating(game, nation, from, -100);
    crate::laws_diplomacy::law_relating(game, nation, from, -10);
    crate::laws_diplomacy::law_relating(game, nation, from, 15);
    let after = game.minding_emoji(nation, from, emoji);
    assert(game.relating(nation, from, -100).replying(nation, from).relations == game.relating(
        nation,
        from,
        -100,
    ).relations);
}

/// Nobody sends two emojis to the same player, or to all, within fifty ticks, nor one to itself.
pub proof fn law_emoji_pauses(game: GameView, from: u16, to: Option<u16>, emoji: i32)
    ensures
        to == Some(from) ==> game.sending_emoji(from, to, emoji) == game,
        (exists|i: int|
            0 <= i < game.emojis.len() && (#[trigger] game.emojis[i]).sender == from
                && game.emojis[i].recipient == to && game.tick - game.emojis[i].tick < 50)
            ==> game.sending_emoji(from, to, emoji) == game,
        game.may_send_emoji(from, to) ==> game.sending_emoji(from, to, emoji).emojis.len()
            == game.emojis.len() + 1,
{
}

} // verus!
