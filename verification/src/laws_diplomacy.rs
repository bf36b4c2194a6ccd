//! What holds of relations, alliances and gifts.

use vstd::prelude::*;

use crate::config::Difficulty;
use crate::donate::DonateTroopsExecution;
use crate::game::{relation_at, GameView};
use crate::game_diplomacy::faded;
use crate::nation_emoji::Mind;
use crate::state::{
    Alliance, AllianceRequest, AllianceRequestStatus, PlayerType, Relation, RelationEntry,
};

verus! {

proof fn lemma_relation_at(relations: Seq<RelationEntry>, from: u16, to: u16)
    ensures
        ({
            let at = relation_at(relations, from, to);
            &&& 0 <= at <= relations.len()
            &&& at < relations.len() ==> relations[at].from == from && relations[at].to == to
            &&& forall|i: int| 0 <= i < at ==> !((#[trigger] relations[i]).from == from
                && relations[i].to == to)
        }),
    decreases relations.len(),
{
    if relations.len() > 0 && !(relations[0].from == from && relations[0].to == to) {
        let rest = relations.skip(1);
        lemma_relation_at(rest, from, to);
        let at = relation_at(relations, from, to);
        if at < relations.len() {
            assert(rest[at - 1] == relations[at]);
        }
        assert forall|i: int| 0 <= i < at implies !((#[trigger] relations[i]).from == from
            && relations[i].to == to) by {
            if i > 0 {
                assert(rest[i - 1] == relations[i]);
            }
        }
    }
}

proof fn lemma_relation_first(relations: Seq<RelationEntry>, from: u16, to: u16, at: int)
    requires
        0 <= at <= relations.len(),
        at < relations.len() ==> relations[at].from == from && relations[at].to == to,
        forall|i: int|
            0 <= i < at ==> !((#[trigger] relations[i]).from == from && relations[i].to == to),
    ensures
        relation_at(relations, from, to) == at,
{
    lemma_relation_at(relations, from, to);
    let found = relation_at(relations, from, to);
    if found < at {
        assert(!(relations[found].from == from && relations[found].to == to));
    }
    if at < found {
        assert(!(relations[at].from == from && relations[at].to == to));
    }
}

/// A change of a relation by so many points changes that relation alone, and never beyond the
/// worst or the best one.
pub proof fn law_relating(game: GameView, from: u16, to: u16, delta: int)
    ensures
        ({
            let before = game.relation_value(from, to) + 100 * delta;
            let after = game.relating(from, to, delta).relation_value(from, to);
            &&& -10_000 <= after <= 10_000
            &&& -10_000 <= before <= 10_000 ==> after == before
            &&& before > 10_000 ==> after == 10_000
            &&& before < -10_000 ==> after == -10_000
        }),
        forall|a: u16, b: u16|
            a != from || b != to ==> #[trigger] game.relating(from, to, delta).relation_value(a, b)
                == game.relation_value(a, b),
{
    let relations = game.relations;
    let after = game.relating(from, to, delta).relations;
    let at = relation_at(relations, from, to);
    lemma_relation_at(relations, from, to);
    assert forall|i: int| 0 <= i < at implies !((#[trigger] after[i]).from == from && after[i].to
        == to) by {
        assert(after[i] == relations[i]);
    }
    lemma_relation_first(after, from, to, at);
    assert forall|a: u16, b: u16|
        a != from || b != to implies #[trigger] game.relating(from, to, delta).relation_value(a, b)
        == game.relation_value(a, b) by {
        let other = relation_at(relations, a, b);
        lemma_relation_at(relations, a, b);
        if other < relations.len() {
            assert(other != at);
            assert forall|i: int| 0 <= i < other implies !((#[trigger] after[i]).from == a
                && after[i].to == b) by {
                if i != at {
                    assert(after[i] == relations[i]);
                }
            }
            assert(after[other] == relations[other]);
            lemma_relation_first(after, a, b, other);
        } else {
            assert forall|i: int| 0 <= i < after.len() implies !((#[trigger] after[i]).from == a
                && after[i].to == b) by {
                if i != at {
                    assert(after[i] == relations[i]);
                }
            }
            lemma_relation_first(after, a, b, after.len() as int);
        }
    }
}

/// A better value never stands for a worse relation; hostility begins below minus fifty points
/// and friendship at fifty.
pub proof fn law_relation_names(a: int, b: int)
    ensures
        a <= b ==> Relation::of_value(a).rank() <= Relation::of_value(b).rank(),
        (Relation::of_value(a) == Relation::Hostile) == (a < -5_000),
        (Relation::of_value(a) == Relation::Friendly) == (a >= 5_000),
        (Relation::of_value(a).rank() >= Relation::Neutral.rank()) == (a >= 0),
{
}

/// Relations fade towards none: by five hundredths of a point a tick, and all at once when
/// little is left.
pub proof fn law_fading(value: int)
    ensures
        value >= 15 ==> faded(value) == value - 5,
        value <= -15 ==> faded(value) == value + 5,
        -15 < value < 15 ==> faded(value) == 0,
{
}

/// The players are listed with the one first that `sid` regards worst.
pub proof fn law_relations_sorted(game: GameView, sid: u16)
    ensures
        ({
            let kept = game.relations.filter(
                |e: RelationEntry| e.from == sid && game.is_alive(e.to),
            );
            let keyed = crate::lists::sort_by_key(
                kept.map_values(|e: RelationEntry| (e.value as i64, e.to)),
            );
            &&& game.relations_sorted(sid).len() == keyed.len()
            &&& forall|i: int|
                0 <= i < keyed.len() ==> (#[trigger] keyed[i]).1 == game.relations_sorted(sid)[i]
            &&& forall|i: int, j: int|
                0 <= i <= j < keyed.len() ==> (#[trigger] keyed[i]).0 <= (#[trigger] keyed[j]).0
        }),
{
    let kept = game.relations.filter(|e: RelationEntry| e.from == sid && game.is_alive(e.to));
    crate::lists::law_sorting(kept.map_values(|e: RelationEntry| (e.value as i64, e.to)));
}

/// When a request is accepted, both are allied until the time is over, each thinks better of
/// the other, and the request waits no longer.
pub proof fn law_accepting(game: GameView, a: u16, b: u16, tick: u32)
    requires
        a != b,
    ensures
        ({
            let after = game.accepting(a, b, tick);
            &&& after.allied(a, b)
            &&& after.allied(b, a)
            &&& !after.requested(a, b)
            &&& after.alliances.len() == game.alliances.len() + 1
            &&& after.alliances.last().expires_at == tick + game.config.alliance_duration
            &&& !after.alliances.last().requestor_extends
            &&& !after.alliances.last().recipient_extends
            &&& game.relation_value(a, b) >= 0 ==> after.relation_value(a, b) == 10_000
            &&& game.relation_value(b, a) >= 0 ==> after.relation_value(b, a) == 10_000
            &&& after.relation_value(a, b) >= game.relation_value(a, b) || game.relation_value(a, b)
                > 10_000
            &&& forall|i: int|
                0 <= i < game.alliances.len() ==> after.alliances[i] == #[trigger] game.alliances[i]
        }),
{
    let answered = game.answering(a, b, AllianceRequestStatus::Accepted);
    let allied = GameView {
        alliances: game.alliances.push(
            Alliance {
                requestor: a,
                recipient: b,
                expires_at: (tick + game.config.alliance_duration) as u64,
                requestor_extends: false,
                recipient_extends: false,
            },
        ),
        ..answered
    };
    law_relating(allied, a, b, 100);
    law_relating(allied.relating(a, b, 100), b, a, 100);
    let after = game.accepting(a, b, tick);
    assert(after.alliances[game.alliances.len() as int].joins(a, b));
    assert(after.alliances[game.alliances.len() as int].joins(b, a));
    assert(allied.relation_value(a, b) == game.relation_value(a, b));
    assert(allied.relation_value(b, a) == game.relation_value(b, a));
    law_answering(game, a, b, AllianceRequestStatus::Accepted);
    assert(after.requests == answered.requests);
    assert(!after.requested(a, b)) by {
        assert(!answered.requested(a, b));
        if after.requested(a, b) {
            let i = choose|i: int|
                0 <= i < after.requests.len() && (#[trigger] after.requests[i]).pends(a, b);
            assert(answered.requests[i].pends(a, b));
        }
    }
}

/// A request that was answered waits no longer; the others are not touched.
pub proof fn law_answering(game: GameView, a: u16, b: u16, status: AllianceRequestStatus)
    requires
        status != AllianceRequestStatus::Pending,
    ensures
        ({
            let after = game.answering(a, b, status);
            &&& !after.requested(a, b)
            &&& after.requests.len() == game.requests.len()
            &&& after.alliances == game.alliances
            &&& forall|i: int|
                0 <= i < game.requests.len() ==> {
                    let (was, is) = (#[trigger] game.requests[i], after.requests[i]);
                    &&& is.requestor_small_id == was.requestor_small_id
                    &&& is.recipient_small_id == was.recipient_small_id
                    &&& is.created_at == was.created_at
                    &&& is.status == (if was.requestor_small_id == a && was.recipient_small_id == b
                        && was.status == AllianceRequestStatus::Pending {
                        status
                    } else {
                        was.status
                    })
                }
        }),
{
    let after = game.answering(a, b, status);
    if after.requested(a, b) {
        let i = choose|i: int|
            0 <= i < after.requests.len() && (#[trigger] after.requests[i]).pends(a, b);
        assert(game.requests[i].pends(a, b) || !game.requests[i].pends(a, b));
    }
}

/// Who ends an alliance is a traitor; the two are allies no longer, and all others stay what
/// they were.
pub proof fn law_betraying(game: GameView, a: u16, b: u16)
    ensures
        !game.betraying(a, b).allied(a, b),
        !game.betraying(a, b).allied(b, a),
        game.allied(a, b) && game.has(a) ==> game.betraying(a, b).is_traitor(a),
        !game.allied(a, b) && game.has(a) ==> game.betraying(a, b).is_traitor(a) == game.is_traitor(
            a,
        ),
        forall|c: u16|
            c != a && game.has(c) ==> #[trigger] game.betraying(a, b).is_traitor(c)
                == game.is_traitor(c),
        forall|c: u16, d: u16|
            !(c == a && d == b) && !(c == b && d == a) ==> #[trigger] game.betraying(a, b).allied(
                c,
                d,
            ) == game.allied(c, d),
{
    let p = |x: Alliance| !x.joins(a, b);
    let left = game.alliances.filter(p);
    let after = game.betraying(a, b);
    crate::lists::lemma_filter_members(game.alliances, p);
    assert(after.alliances == left);
    assert forall|i: int| 0 <= i < left.len() implies !(#[trigger] left[i]).joins(a, b) by {
        assert(left.contains(left[i]));
        assert(p(left[i]));
    }
    assert forall|c: u16, d: u16|
        !(c == a && d == b) && !(c == b && d == a) implies #[trigger] after.allied(c, d)
        == game.allied(c, d) by {
        if game.allied(c, d) {
            let i = choose|i: int|
                0 <= i < game.alliances.len() && (#[trigger] game.alliances[i]).joins(c, d);
            assert(p(game.alliances[i]));
            assert(game.alliances.contains(game.alliances[i]));
            assert(left.contains(game.alliances[i]));
            let k = choose|k: int| 0 <= k < left.len() && left[k] == game.alliances[i];
            assert(after.alliances[k].joins(c, d));
        }
        if after.allied(c, d) {
            let i = choose|i: int|
                0 <= i < after.alliances.len() && (#[trigger] after.alliances[i]).joins(c, d);
            assert(left.contains(left[i]));
            let k = choose|k: int|
                0 <= k < game.alliances.len() && game.alliances[k] == left[i];
            assert(game.alliances[k].joins(c, d));
        }
    }
}

proof fn lemma_shunned(game: GameView, traitor: u16, betrayed: u16, others: Seq<u16>, id: u16)
    requires
        -10_000 <= game.relation_value(id, traitor) <= 10_000,
    ensures
        ({
            let after = game.shunning(traitor, betrayed, others);
            let (was, is) = (
                game.relation_value(id, traitor),
                after.relation_value(id, traitor),
            );
            &&& after.players == game.players
            &&& -10_000 <= is <= was
            &&& others.contains(id) && !game.on_same_team(id, betrayed) ==> is <= was - 4_000 || is
                == -10_000
            &&& game.on_same_team(id, betrayed) || !others.contains(id) ==> is == was
        }),
    decreases others.len(),
{
    if others.len() > 0 {
        let front = others.drop_last();
        let last = others.last();
        lemma_shunned(game, traitor, betrayed, front, id);
        let before = game.shunning(traitor, betrayed, front);
        law_relating(before, last, traitor, -40);
        assert(others[others.len() - 1] == last);
        assert(others.contains(last));
        if others.contains(id) && id != last {
            let i = choose|i: int| 0 <= i < others.len() && others[i] == id;
            assert(front[i] == id);
        }
        if front.contains(id) {
            let i = choose|i: int| 0 <= i < front.len() && front[i] == id;
            assert(others[i] == id);
        }
        if id != last {
            assert(before.relating(last, traitor, -40).relation_value(id, traitor)
                == before.relation_value(id, traitor));
        }
    }
}

/// Who broke an alliance is thought worse of: by the ally by a hundred points, by every
/// neighbor, but for those on the ally's team, by forty.
pub proof fn law_breaking(game: GameView, traitor: u16, betrayed: u16, id: u16)
    requires
        game.allied(traitor, betrayed),
        game.has(traitor),
        traitor != betrayed,
        -10_000 <= game.relation_value(id, traitor) <= 10_000,
    ensures
        ({
            let after = game.breaking(traitor, betrayed);
            let parted = game.betraying(traitor, betrayed).relating(betrayed, traitor, -100);
            let (was, is) = (
                game.relation_value(id, traitor),
                after.relation_value(id, traitor),
            );
            &&& id == betrayed && was <= 0 ==> is == -10_000
            &&& id == betrayed ==> is <= was - 10_000 || is == -10_000
            &&& id != betrayed && parted.near_ids(traitor).contains(id) && !game.on_same_team(
                id,
                betrayed,
            ) ==> is <= was - 4_000 || is == -10_000
            &&& id != betrayed && (!parted.near_ids(traitor).contains(id) || game.on_same_team(
                id,
                betrayed,
            )) ==> is == was
        }),
{
    let left = game.betraying(traitor, betrayed);
    let broken = left.relating(betrayed, traitor, -100);
    law_relating(left, betrayed, traitor, -100);
    assert(left.relation_value(id, traitor) == game.relation_value(id, traitor));
    if id != betrayed {
        assert(broken.relation_value(id, traitor) == left.relation_value(id, traitor));
    }
    lemma_shunned(broken, traitor, betrayed, broken.near_ids(traitor), id);
    assert(broken.on_same_team(id, betrayed) == game.on_same_team(id, betrayed));
}

/// An alliance that one side wants to extend is not extended yet; once both do, it lasts until
/// the new time, and the wishes are forgotten.
pub proof fn law_extending(x: Alliance, from: u16, until: u64)
    requires
        x.requestor != x.recipient,
        x.requestor == from || x.recipient == from,
        !(x.requestor_extends && x.recipient_extends),
    ensures
        ({
            let other_wishes = if x.requestor == from {
                x.recipient_extends
            } else {
                x.requestor_extends
            };
            let after = x.extended(from, until);
            &&& after.requestor == x.requestor
            &&& after.recipient == x.recipient
            &&& other_wishes ==> after.expires_at == until && !after.requestor_extends
                && !after.recipient_extends
            &&& !other_wishes ==> after.expires_at == x.expires_at && (after.requestor_extends == (
            x.requestor == from)) && (after.recipient_extends == (x.recipient == from))
        }),
{
}

/// What lapses is over: the alliances of a player whose time has come, and its temporary
/// embargoes. All else stays.
pub proof fn law_lapsing(game: GameView, sid: u16)
    ensures
        forall|x: Alliance| #[trigger]
            game.expiring_alliances(sid).alliances.contains(x) == (game.alliances.contains(x) && !(
            x.involves(sid) && x.expires_at <= game.tick)),
        forall|e: crate::state::Embargo| #[trigger]
            game.expiring_embargoes(sid).embargoes.contains(e) == (game.embargoes.contains(e) && !(
            e.from == sid && e.temporary && game.tick - e.created_at
                > game.config.temporary_embargo_duration)),
{
    crate::lists::lemma_filter_members(game.alliances, game.lasting(sid));
    crate::lists::lemma_filter_members(game.embargoes, game.unlifted(sid));
}

/// Only living friends can be given to, and nobody gives to itself.
pub proof fn law_may_donate(game: GameView, from: u16, to: u16)
    ensures
        game.may_donate_troops(from, to) || game.may_donate_gold(from, to) ==> from != to
            && game.player(from).alive && game.player(to).alive && (game.allied(from, to)
            || game.on_same_team(from, to)),
        from != to && game.is_alive(from) && game.is_alive(to) && game.allied(from, to)
            && !game.of_type(to, PlayerType::Human) ==> game.may_donate_troops(from, to)
            && game.may_donate_gold(from, to),
        !game.config.donate_troops && game.of_type(to, PlayerType::Human)
            ==> !game.may_donate_troops(from, to),
        !game.config.donate_gold && game.of_type(to, PlayerType::Human) ==> !game.may_donate_gold(
            from,
            to,
        ),
{
}

/// A gift of troops is no more than was asked, a third of the giver's where nothing was, and
/// never lifts the recipient over its limit.
pub proof fn law_gift(donation: DonateTroopsExecution, game: GameView, to: u16)
    ensures
        donation.troops is Some ==> donation.gift(game, to) <= donation.troops->0,
        donation.troops is None ==> donation.gift(game, to) * 3 <= game.troops(
            donation.sender_small_id,
        ) * 100_000,
        donation.gift(game, to) + game.troops(to) * 100_000 <= game.max_troops_milli(to) * 100,
        donation.troops is Some && donation.troops->0 + game.troops(to) * 100_000
            <= game.max_troops_milli(to) * 100 ==> donation.gift(game, to) == donation.troops->0,
{
}

/// Who is given troops thinks better of the giver, by fifty points.
pub proof fn law_troops_make_friends(game: GameView, from: u16, to: u16, amount: int)
    requires
        game.has(from),
        game.has(to),
        from != to,
        game.troops(from) > 0,
        amount >= 100_000,
    ensures
        ({
            let after = game.giving_troops(from, to, amount);
            let was = game.relation_value(to, from);
            &&& after.troops(from) < game.troops(from)
            &&& -10_000 <= was <= 5_000 ==> after.relation_value(to, from) == was + 5_000
            &&& 5_000 < was ==> after.relation_value(to, from) == 10_000
            &&& forall|a: u16, b: u16|
                a != to || b != from ==> #[trigger] after.relation_value(a, b)
                    == game.relation_value(a, b)
        }),
{
    let given = game.losable(from, amount);
    let paid = game.losing(from, amount);
    let done = paid.reinforcing(to, given * crate::config::TROOP_SCALE);
    assert(given > 0);
    law_relating(done, to, from, 50);
    assert(done.relations == game.relations);
    assert(done.relation_value(to, from) == game.relation_value(to, from));
    assert forall|a: u16, b: u16| a != to || b != from implies #[trigger] game.giving_troops(
        from,
        to,
        amount,
    ).relation_value(a, b) == game.relation_value(a, b) by {
        assert(done.relating(to, from, 50).relation_value(a, b) == done.relation_value(a, b));
        assert(done.relation_value(a, b) == game.relation_value(a, b));
    }
}

/// Gratitude for gold: five points for every chunk of it, a hundred at most. A chunk is worth
/// more as the game goes on, and on a higher difficulty.
pub proof fn law_gratitude(game: GameView, gold: int, tick: u32)
    requires
        0 <= gold <= 2_000_000_000,
    ensures
        ({
            let chunk = game.grown_chunk(tick);
            let points = game.gratitude(gold, tick);
            &&& 0 <= points <= 100
            &&& gold < chunk ==> points == 0
            &&& chunk <= gold < 2 * chunk ==> points == 5
            &&& gold >= 20 * chunk ==> points == 100
        }),
        game.grown_chunk(0) == (match game.config.difficulty {
            Difficulty::Easy => 2_500int,
            Difficulty::Hard => 12_500,
            Difficulty::Impossible => 25_000,
            _ => 5_000,
        }),
        forall|later: u32| #![trigger game.grown_chunk(later)]
            tick <= later ==> game.grown_chunk(tick) <= game.grown_chunk(later),
        game.grown_chunk((3000 + game.config.num_spawn_phase_turns) as u32) == 2 * game.grown_chunk(
            0,
        ) || 3000 + game.config.num_spawn_phase_turns > u32::MAX,
{
    let size = crate::donate_gold::chunk_size(game.config.difficulty);
    let period = 3000 + game.config.num_spawn_phase_turns;
    assert forall|t: u32| #[trigger] game.grown_chunk(t) >= size by {
        lemma_grown(size, period, t as int);
    }
    lemma_grown(size, period, 0);
    lemma_grown(size, period, period);
    assert forall|later: u32| #![trigger game.grown_chunk(later)]
        tick <= later implies game.grown_chunk(tick) <= game.grown_chunk(later) by {
        lemma_grows(size, period, tick as int, later as int);
    }
    let chunk = game.grown_chunk(tick);
    assert(chunk >= 2_500);
    let q = gold / chunk;
    assert(q >= 0 && q * chunk <= gold < (q + 1) * chunk) by (nonlinear_arith)
        requires
            q == gold / chunk,
            chunk > 0,
            gold >= 0,
    ;
    assert(q <= 800_000) by (nonlinear_arith)
        requires
            q * chunk <= gold,
            gold <= 2_000_000_000,
            chunk >= 2_500,
    ;
    if gold < chunk {
        assert(q == 0) by (nonlinear_arith)
            requires
                q * chunk <= gold,
                gold < chunk,
                q >= 0,
                chunk > 0,
        ;
    }
    if chunk <= gold < 2 * chunk {
        assert(q == 1) by (nonlinear_arith)
            requires
                q * chunk <= gold < (q + 1) * chunk,
                chunk <= gold < 2 * chunk,
                chunk > 0,
        ;
    }
    if gold >= 20 * chunk {
        assert(q >= 20) by (nonlinear_arith)
            requires
                gold < (q + 1) * chunk,
                gold >= 20 * chunk,
                chunk > 0,
        ;
    }
}

proof fn lemma_grown(size: int, period: int, tick: int)
    requires
        size >= 0,
        period > 0,
        tick >= 0,
    ensures
        (2 * size * (period + tick) + period) / (2 * period) >= size,
        tick == 0 ==> (2 * size * (period + tick) + period) / (2 * period) == size,
        tick == period ==> (2 * size * (period + tick) + period) / (2 * period) == 2 * size,
{
    let n = 2 * size * (period + tick) + period;
    let d = 2 * period;
    assert(n >= size * d) by (nonlinear_arith)
        requires
            n == 2 * size * (period + tick) + period,
            d == 2 * period,
            size >= 0,
            period > 0,
            tick >= 0,
    ;
    assert(n / d >= size) by (nonlinear_arith)
        requires
            n >= size * d,
            d > 0,
    ;
    if tick == 0 {
        assert(n < (size + 1) * d) by (nonlinear_arith)
            requires
                n == 2 * size * period + period,
                d == 2 * period,
                period > 0,
        ;
        assert(n / d < size + 1) by (nonlinear_arith)
            requires
                n < (size + 1) * d,
                d > 0,
        ;
    }
    if tick == period {
        assert(2 * size * d <= n < (2 * size + 1) * d) by (nonlinear_arith)
            requires
                n == 2 * size * (period + period) + period,
                d == 2 * period,
                period > 0,
        ;
        assert(n / d == 2 * size) by (nonlinear_arith)
            requires
                2 * size * d <= n < (2 * size + 1) * d,
                d > 0,
        ;
    }
}

proof fn lemma_grows(size: int, period: int, a: int, b: int)
    requires
        size >= 0,
        period > 0,
        0 <= a <= b,
    ensures
        (2 * size * (period + a) + period) / (2 * period) <= (2 * size * (period + b) + period) / (2
            * period),
{
    let m = 2 * size * (period + a) + period;
    let n = 2 * size * (period + b) + period;
    assert(m <= n) by (nonlinear_arith)
        requires
            m == 2 * size * (period + a) + period,
            n == 2 * size * (period + b) + period,
            size >= 0,
            a <= b,
    ;
    vstd::arithmetic::div_mod::lemma_div_is_ordered(m, n, 2 * period);
}

/// Whom a nation betrays is its ally. On the lowest difficulty no human, and only one with a
/// tenth of its troops or fewer; on the others one that is weaker, or a traitor that is not
/// much stronger.
pub proof fn law_betrayal(game: GameView, a: u16, t: u16, bordering: int)
    requires
        game.troops(a) >= 0,
        game.troops(t) >= 0,
    ensures
        game.betrays(a, t, bordering) ==> {
            &&& game.allied(a, t)
            &&& game.config.difficulty == Difficulty::Easy ==> game.troops(t) * 10 <= game.troops(a)
                && !game.of_type(t, PlayerType::Human)
            &&& game.config.difficulty == Difficulty::Medium ==> game.troops(t) * 10 <= game.troops(a)
                || (game.is_traitor(t) && game.troops(t) * 5 < game.troops(a) * 6) || (bordering
                == 1 && game.troops(t) * 3 < game.troops(a))
            &&& game.troops(t) <= game.troops(a) || (game.is_traitor(t) && game.troops(t) * 5
                < game.troops(a) * 6)
        },
        game.allied(a, t) && game.has(a) && game.has(t) && game.config.difficulty
            == Difficulty::Medium && game.troops(t) * 10 <= game.troops(a) ==> game.betrays(
            a,
            t,
            bordering,
        ),
        game.allied(a, t) && game.has(a) && game.has(t) && game.config.difficulty
            != Difficulty::Easy && game.troops(t) * 3 < game.troops(a) ==> game.betrays(a, t, 1),
{
}

/// Only a stronger player is a threat. On the highest difficulty one half as strong again
/// always is; on the lowest nobody is.
pub proof fn law_threats(game: GameView, sid: u16, other: u16)
    requires
        game.has(sid),
        game.has(other),
        game.troops(sid) >= 0,
    ensures
        game.threatened_by(sid, other) ==> game.troops(other) > game.troops(sid)
            && game.config.difficulty != Difficulty::Easy,
        game.config.difficulty == Difficulty::Impossible && game.troops(other) * 2 > game.troops(sid)
            * 3 ==> game.threatened_by(sid, other),
        game.config.difficulty == Difficulty::Medium ==> game.threatened_by(sid, other) == (
        game.troops(other) * 2 > game.troops(sid) * 5),
        game.config.difficulty == Difficulty::Hard && game.threatened_by(sid, other)
            ==> game.max_troops_milli(other) > 2 * game.max_troops_milli(sid),
{
}

/// A nation that is not confused answers by its needs: it turns down who has too many allies,
/// joins who threatens it, and turns down whom it distrusts. In a team game on the highest
/// difficulty it joins nobody else.
pub proof fn law_answers(m: Mind, sid: u16, other: u16, asked: bool)
    requires
        !m.game.is_traitor(other),
    ensures
        m.game.overallied(other) ==> !m.deciding_clearly(sid, other, asked).0,
        !m.game.overallied(other) && m.game.threatened_by(sid, other) ==> m.deciding_clearly(
            sid,
            other,
            asked,
        ).0,
        !m.game.threatened_by(sid, other) && m.game.relation_value(sid, other) < 0
            ==> !m.deciding_clearly(sid, other, asked).0,
        !m.game.threatened_by(sid, other) && m.game.config.is_team() && m.game.config.difficulty
            == Difficulty::Impossible ==> !m.deciding_clearly(sid, other, asked).0,
        !m.game.overallied(other) && !m.game.config.is_team() && m.game.relation_value(sid, other)
            >= 5_000 && (m.game.config.difficulty == Difficulty::Easy || m.game.config.difficulty
            == Difficulty::Medium) ==> m.deciding_clearly(sid, other, asked).0,
        m.game.config.difficulty == Difficulty::Impossible ==> m.deciding(sid, other, asked)
            == m.deciding_clearly(sid, other, asked),
{
    reveal(Mind::deciding);
}

/// Nine traitors in ten are turned down.
pub proof fn law_traitors_are_turned_down(m: Mind, sid: u16, other: u16, asked: bool)
    requires
        m.game.is_traitor(other),
        m.roll(100) >= 10,
    ensures
        !m.deciding_clearly(sid, other, asked).0,
{
}

/// A nation on medium difficulty is satisfied with six allies and never with three; on hard
/// with five and never with two; on impossible with four and never with one, unless its
/// neighbors decide. On the lowest it never is.
pub proof fn law_satisfied(m: Mind, sid: u16, other: u16)
    requires
        !m.game.near_ids(sid).contains(other),
    ensures
        ({
            let count = m.game.alliance_count(sid);
            let enough = m.satisfied(sid, other).0;
            &&& m.game.config.difficulty == Difficulty::Easy ==> !enough
            &&& m.game.config.difficulty == Difficulty::Medium ==> (count >= 6 ==> enough) && (count
                < 4 ==> !enough)
            &&& m.game.config.difficulty == Difficulty::Hard ==> (count >= 5 ==> enough) && (count
                < 3 ==> !enough)
            &&& m.game.config.difficulty == Difficulty::Impossible ==> (count >= 4 ==> enough) && (
            count < 2 ==> !enough)
        }),
{
    crate::prng::lemma_int_drawn(m.rng, 4, 6);
    crate::prng::lemma_int_drawn(m.rng, 3, 5);
    crate::prng::lemma_int_drawn(m.rng, 2, 4);
    crate::lists::lemma_filter_members(m.game.near_ids(sid), m.game.no_bot());
}

/// Two players are matched where the other has nine tenths of the troops, and never where it
/// has half or fewer.
pub proof fn law_matched(m: Mind, sid: u16, other: u16)
    requires
        m.game.has(sid),
        m.game.has(other),
        m.game.total_troops(sid) > 0,
    ensures
        m.game.total_troops(other) * 10 >= m.game.total_troops(sid) * 9 ==> m.matched(
            sid,
            other,
        ).0,
        m.game.total_troops(other) * 2 <= m.game.total_troops(sid) ==> !m.matched(sid, other).0,
{
    let (lo, tile_lo) = match m.game.config.difficulty {
        Difficulty::Easy => (60int, 70int),
        Difficulty::Medium => (70int, 80int),
        Difficulty::Hard => (75int, 85int),
        Difficulty::Impossible => (80int, 90int),
        Difficulty::Other => (70int, 80int),
    };
    crate::prng::lemma_int_drawn(m.rng, lo, lo + 10);
    let p = crate::prng::int_drawn(m.rng, lo, lo + 10);
    let own = m.game.total_troops(sid);
    let theirs = m.game.total_troops(other);
    assert(own * 60 <= own * p < own * 90) by (nonlinear_arith)
        requires
            own > 0,
            60 <= p < 90,
    ;
}

/// After the first minutes no nation takes an ally only because the game is young.
pub proof fn law_young(m: Mind)
    ensures
        m.game.tick - m.game.config.num_spawn_phase_turns >= 3000 ==> !m.young().0,
        m.game.tick - m.game.config.num_spawn_phase_turns >= 1800 && m.game.config.difficulty
            != Difficulty::Easy ==> !m.young().0,
        m.game.tick - m.game.config.num_spawn_phase_turns >= 600 && m.game.config.difficulty
            == Difficulty::Impossible ==> !m.young().0,
        m.game.tick - m.game.config.num_spawn_phase_turns < 600 && m.roll(100) >= 70
            && m.game.config.difficulty != Difficulty::Other ==> m.young().0,
        m.roll(100) < 10 ==> !m.young().0,
{
}

/// Only alliances in which the other side alone, or the nation alone, wants to go on are
/// thought of, and only with partners of the nation; of the requests only those that wait.
pub proof fn law_pending_matters(game: GameView, sid: u16)
    ensures
        forall|r: AllianceRequest| #[trigger]
            game.requests_to(sid).contains(r) == (game.requests.contains(r) && r.recipient_small_id
                == sid && r.status == AllianceRequestStatus::Pending),
        forall|i: int|
            0 <= i < game.extension_partners(sid).len() ==> game.allied(
                sid,
                #[trigger] game.extension_partners(sid)[i],
            ),
{
    crate::lists::lemma_filter_members(game.requests, GameView::request_to(sid));
    let open = game.alliances.filter(GameView::extendable(sid));
    crate::lists::lemma_filter_members(game.alliances, GameView::extendable(sid));
    assert forall|i: int| 0 <= i < game.extension_partners(sid).len() implies game.allied(
        sid,
        #[trigger] game.extension_partners(sid)[i],
    ) by {
        assert(open.contains(open[i]));
        assert(GameView::extendable(sid)(open[i]));
        let k = choose|k: int| 0 <= k < game.alliances.len() && game.alliances[k] == open[i];
        assert(game.alliances[k].joins(sid, open[i].other(sid)));
    }
}

} // verus!
